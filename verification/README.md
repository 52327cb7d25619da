# preflight

A library for auditing [Aiken](https://aiken-lang.org) smart contracts with a
language model, written in Verus. A model works on one vulnerability skill at a
time. It may ask to read files of the project, and it ends with its findings.

The library holds the decisions: what a model is told, what it may read, how its
replies are understood, which payloads a service is sent, when a request is sent
again, and when it is given up. Each function states in its contract what it
returns, and Verus proves it.

| Module | What it holds |
| --- | --- |
| `model` | The data of an audit, and the arithmetic of token usage. |
| `record` | How the data of an audit is written as JSON. |
| `agent::structured` | Finding the JSON payload in a reply. |
| `agent::actions` | What a reply asks for. |
| `agent::findings` | What a final answer says about a skill. |
| `agent::prompts` | The texts that a model is sent. |
| `agent::conversation` | The loop from the first prompt to the outcome. |
| `reads::scope` | Where in a project a model may read. |
| `reads::requests`, `reads::task` | How a read request is decided and carried out. |
| `reads::walk`, `reads::glob`, `reads::command` | Collecting files, matching names, showing output. |
| `providers::attempts` | Which payload to send, when to wait, when to give up. |
| `providers::anthropic` | The Messages API: payloads, replies, streams, failures. |
| `providers::openai` | The chat and responses APIs: payloads, replies, streams. |
| `providers::console`, `providers::events`, `providers::status` | What the terminal shows, the lines of a stream, statuses in words. |
| `json`, `wire`, `text` | JSON values, their text, and text itself. |

Functions named `law_…` are proofs of what holds of the library as a whole: that
excluded directories are unreachable under every scope, that a finished walk
misses no file, that a rate limit never changes the payload, that the attempts at
a request come to an end. That it makes no difference where the network cuts a
streamed reply in two is proved for every cut between bytes with the Messages
API, and for every cut between characters with the other two, unless the first
piece already completes the line that ends the stream.

`app/` is the program around the library: the command line, the network, the
file system and the terminal.
