# hivegui

The logic of HiveGUI's prompt tools as a verified Verus library, with a thin
host crate around it.

- `src/` — the library. Every function is verified except the small
  trusted wrappers, each marked `#[verifier::external_body]` and documented
  where it stands, around `String::push`, `str::to_lowercase`,
  `serde_json::to_string` (of a string) and `serde_json::from_str` (with the
  copy of its `Value` into the library's `JsonValue`): Verus takes their
  contracts on trust. The modules:
  - `debugger`: the prompt debugger's session (messages, tools, pickers),
    execution history (paging, selection, comparison, detached windows) and
    the run's checks;
  - `request`, `call`: the chat-completion request body, endpoint and reply
    texts;
  - `json`: JSON values, the smallest differing nodes between aligned values
    and the pretty-printed lines with those nodes marked;
  - `compare`, `panel`, `detached`: viewer and comparison texts, panel
    labels, detached-window plans;
  - `library`: the prompt library panel;
  - `settings`: the data-management view as a state machine (backup export,
    restore precheck, cancellation and confirmation, retention, diagnostics);
  - `catalog`, `message`, `window_key`, `text`, `search`, `seqs`, `flags`:
    the data types and the text and sequence helpers they rest on.
- `tests/` — tests run against the compiled library.
- `app/` — the host: JSON and file bridges, the HTTP call, the
  floating-point sampling settings, file checks and the random id of the
  diagnostic export path.
