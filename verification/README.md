# PaneBot

Named mpv panes, the daemon that owns them, and the clients that drive it: a
verified library, and an application around it.

```
sender / terminal -> JSON over a web socket -> daemon -> mpv JSON IPC -> one player per pane
```

## Layout

`src/` holds what PaneBot decides and computes. Each function states in its contract
what it returns or changes, over models of texts, JSON values, panes and screens.

| Modules | Subject |
|---|---|
| `text`, `json` | strings as sequences of characters, JSON values |
| `ini`, `ini_laws`, `config`, `paths` | configuration files and where files live |
| `m3u`, `names`, `walk`, `complete` | playlists, names, directories, completions |
| `protocol`, `events`, `daemon`, `manage`, `node`, `boot`, `typed` | the daemon |
| `board`, `client`, `connect`, `mirror` | what clients know, send and wait for |
| `keys`, `picks`, `tui`, `tui_keys`, `screen` | the operator's terminal |
| `console`, `console_screen` | the terminal that edits playlist files |
| `watch`, `watch_keys`, `watch_screen`, `glance` | the terminals with a log |
| `desk`, `desk_keys`, `desk_laws`, `startup`, `wizard`, `wizard_screen` | panes without a daemon |
| `sender` | sending files from the command line |

`app/` opens sockets, files and the terminal, and hands the library plain values:
`panebot daemon` (`--typed` for panes with types, which `watch` and `glance` show), `tui`, `console`, `watch`, `glance`, `desk` and `send`.

`tests/` runs the library on concrete values.

## What is taken on trust

JSON is read and written by `serde_json`, addresses are read by `url`, and a few
functions of the standard library have no contract of their own. Each such call
stands in one small function whose comment says what is assumed of it.
