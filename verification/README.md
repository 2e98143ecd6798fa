# lithos_codecs

Wire codecs for language-model providers, written and proved in Verus: a
provider-neutral request becomes one HTTP request, and a response document or
an event stream becomes provider-neutral content.

- `src/gemini`, `src/openai_chat`, `src/openai`: the Gemini `generateContent`,
  Chat Completions, and Responses codecs. Each has an `encode`, a `decode`, and
  a `stream` module.
- `src/assembler.rs`: the blocks of a stream, and the response they add up to.
- `src/options.rs`: endpoints, raw provider options, and cache routing keys.
- `src/codecs.rs`: building a codec from its id and its options.
- `src/types.rs`, `src/response.rs`, `src/content.rs`, `src/envelope.rs`,
  `src/errors.rs`: requests, responses, and what the codecs share about them.
- `src/json.rs`, `src/serial.rs`, `src/text.rs`, `src/body.rs`: JSON documents,
  their text, and texts.
- `src/laws`: what holds of the library as a whole.
- `app`: floating point, HTTP types, and error types with their sources.

The executable functions in `src` have contracts over mathematical models, but
for the two that draw a random word, of which nothing can be promised. Each type
has a view, and a stream decoder is a step function from its state and a frame
to its next state and events. JSON text is parsed and printed by `serde_json`,
behind the few trusted items in `src/serial.rs` and `src/json.rs`.
