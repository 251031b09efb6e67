# claude_router

A proxy that speaks the Messages API to its clients and forwards requests
to OpenRouter, choosing a model for each request by rules on its text.

## Layout

- `src/` – the verified library (Verus):
  - `errors` – the error taxonomy, its HTTP statuses and display forms;
  - `config`, `rules_engine`, `router` – configuration, role selection by
    the first matching rule, model resolution and per-family prompt
    adaptation (`prompt_adapter`);
  - `messages`, `openrouter`, `provider_types` – the two wire formats and
    the conversions between them, including the translation of a streamed
    reply into content-block events;
  - `sse` – framing of the provider's event stream into `data:` payloads;
  - `json_repair` – repair of near-miss JSON in tool arguments;
  - `translator` – renaming of tools and their argument keys;
  - `metrics`, `streaming` – counters and statistics, stream settings;
  - `string_map`, `text`, `patterns` – a string-keyed map, character and
    string helpers, and the regular-expression calls.
- `app/` – the server: configuration file, HTTP handlers, the OpenRouter
  client, shared metrics, and the serde forms of the library's types.
- `tests/` – tests of the library.
