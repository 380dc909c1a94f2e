# alzed

AL language support for the Zed editor talks to Microsoft's AL Language Server
through a bridge: the server speaks LSP with `al/*` methods of its own, and stays
idle until each project's manifest has been loaded with them.

`src/` is the logic of the bridge and of the editor extension that starts it,
verified with Verus:

| module | what it holds |
|---|---|
| `framing` | the wire format: putting frames around payloads and reading them back |
| `json`, `codec` | JSON values, and reading and writing them with `serde_json` |
| `tokens` | where the tokens of a JSON text lie |
| `jsonc` | JSON with comments and trailing commas, as in `launch.json` |
| `rpc` | JSON-RPC messages |
| `session` | what the bridge remembers: folders, hover requests, its own requests |
| `client`, `server` | what becomes of a message from the editor, and from the AL server |
| `history` | what holds over whole runs of the bridge |
| `settings` | the workspace settings in the AL server's own shape |
| `handshake` | the messages that load the projects |
| `trigger` | commands that come through a trigger file |
| `paths` | `file:` URIs and the paths that they stand for |
| `progress` | progress reports |
| `snippets` | AL snippets among the completions |
| `config` | the command line |
| `extension` | finding the bridge, and wrapping the user's settings |
| `text` | strings and decimal numerals |

Each public function states what it returns; laws that relate several functions
are the proof functions whose names begin with `law_`. What is taken on trust of
`serde_json`, `url` and the standard library stands in small wrappers, each with
its contract, in `json`, `codec`, `paths` and `text`.

`app/` is the program around it: streams, files, tasks and logging, and the
editor's extension interface.
