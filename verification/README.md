# default_client

The HTTP client that every part of a Codex process shares: who it says it is
(`originator`, `User-Agent`), how its requests are built, and how exchanges are
logged.

The library under `src/` is verified with Verus:

| module       | what it holds                                                      |
|--------------|--------------------------------------------------------------------|
| `header`     | header values and maps of the `http` crate as plain data           |
| `names`      | header names, and sets of them                                     |
| `originator` | the originator: its choice, and the cell that settles it once      |
| `user_agent` | the user agent: its composition, and how it is made fit for a header |
| `client`     | the client: its default headers and its proxies                    |
| `request`    | building a request, and the identifiers of an exchange             |
| `logging`    | the switch of the logs                                             |
| `log`        | the entries of the logs                                            |
| `exchange`   | the course of an exchange: build, log, execute, log, hand back     |

Calls into `http`, `reqwest`, `os_info`, `time` and `serde_json`, and `push`,
`trim` and `from_utf8_lossy` of the standard library, stand behind small items
whose contracts say what is relied on; everything else is proved, over the
specifications that Verus gives to the standard library.

`app/` is the part that touches the world: the state that a process has once,
its environment, the network and the log files.
