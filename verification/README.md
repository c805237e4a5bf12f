# openab-core

The core of a client for the Agent Client Protocol: it starts coding agents as
child processes and talks JSON-RPC with them over their standard input and output.

`src/` is a library verified with Verus.

| Module | What it decides |
| --- | --- |
| `connection` | the requests a client makes, what it makes of the replies, and how an agent is ended |
| `router` | where each message of the agent goes: to a waiting request, to the subscriber, or back as an answer |
| `permission` | which option is selected when the agent asks for a permission |
| `capabilities` | what an agent advertises of itself |
| `content` | content blocks, and the gates that keep from an agent what it does not take |
| `environment` | the environment variables that an agent process gets |
| `protocol` | requests, responses, messages and errors |
| `diagnostics` | how an agent's error output is logged |
| `json`, `text`, `filter` | documents, texts and sequences |

Contracts speak of views: a document is a map or a sequence of documents, a router is
a map from identifiers to slots with a subscriber, and a connection is what it knows.
What holds of several operations together stands in public proof functions at the end
of the modules.

The library trusts what the standard library documents of `str::trim` and
`String::push` (`src/text.rs`).

`app/` runs the library: it spawns the process, reads and writes its pipes, parses and
writes the text of messages, and keeps the time. `tests/` holds the tests.
