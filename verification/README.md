# rift_chat

The provider-agnostic pieces of the Rift CLI agent that translate between the
Responses API format of the agent core and the Chat Completions API, and the
`model` command of the CLI, written in Verus with their behaviour stated as
contracts and proved.

- `src/chat_completions.rs` — conversion of a Responses API request (input
  items, instructions, raw tool JSON, tool choice) into a Chat Completions
  request; the headers a streamed request sets.
- `src/chat_completions_sse.rs` — the decisions taken for each input of a
  Chat Completions event stream (chunks, `[DONE]`, failures, idle timeout),
  as a step function over an explicit state, with its laws.
- `src/model_cmd.rs` — selection, stable sorting, searching and rendering of
  the model catalog, and parsing of the reasoning effort of `model use`.
- `src/json.rs`, `src/protocol.rs`, `src/text.rs` — JSON documents, the
  agent core's request items and events, and string routines.
- `app/` — HTTP client, the stream-reading task, clap and serde types, and
  the `model` command's I/O.
