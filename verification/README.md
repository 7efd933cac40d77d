# ai-runtime

A runtime for streaming, tool-using and voice agents, in Verus. The library holds the protocols,
the rules and the state machines, each with a contract that Verus proves; the program around it
does the input and output.

## Layout

- `src/llm`: chat requests, and the reading of a streamed answer (server-sent events).
- `src/runtime`: the lifecycle of a request, and the turn of an agent with its tools.
- `src/tools`: the registry, the validation of arguments, and two tools.
- `src/voice`: listening, speaking, sessions, latencies, and the backends of Deepgram and LiveKit.
- `src/cli`: what the program's commands accept and print.
- `src/json.rs`, `src/text.rs`, `src/time.rs`, `src/stats.rs`, `src/streams.rs`: what these share.
- `app`: the program. It opens streams, sockets and files, waits, and hands the library what came.
- `tests`: the library from outside.

## How a machine is run

A machine takes one input at a time and answers with what to tell and what to do next. Which inputs
it expects stands in its `requires`. The laws (public proof functions) speak of any sequence of such
inputs: for example, that a cancelled turn commits no answer to the conversation, that an answer is
what was streamed, and that events are read alike however their bytes arrive.

## What is believed

Calls into std and other crates stand behind small functions marked `external_body`; their comments
say what is claimed of each. They are the clock, the `{:?}` form of a text, lossy UTF-8, the JSON
form of a text, the checks of a WebSocket request, and the signing of an access token.
