# yt

A token-frugal command line client for YouTrack: compact lines, tight `fields=`
requests, and nothing but an id or `ok` on writes. The command tree has two tiers,
`yt read …`, which never changes anything, and `yt write …`.

The library decides everything; it is written in Verus, and each function is proved
against its contract. A command is carried out in steps: the library says what to
print and what to do next (send a request, read a file, ask for input), the program
does it, hands back what came of it, and gets the next step.

| Module    | What it holds |
|-----------|---------------|
| `text`, `number`, `sorted` | characters, numbers as text, maps in the order of their names |
| `json`, `wire` | JSON values, and their text as `serde_json` reads and writes it |
| `failure`, `line`, `style` | messages, what is printed, terminal styles |
| `date`, `paths` | dates, and where files are kept |
| `config`, `client` | the configured servers, requests and replies |
| `fields`, `lookup`, `report` | custom fields, what is looked up on a server, how replies are shown |
| `command`, `session`, `local`, `update` | the commands, and the steps that carry them out |

Proof functions whose names start with `law_` state what holds of the library as a
whole: that the read tier only ever asks, that a saved configuration is the one that is
loaded, that no binary is installed but one with the right checksum, and so on.

What is taken on trust stands in a few small functions marked
`#[verifier::external_body]`: the calls into `serde_json`, `anstyle` and `sha2`, and a few
of the standard library. The comment above each says what is claimed of the call.

`app/` is the program around the library: the command line, the network and the files.
