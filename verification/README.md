# tauri_manager

The window manager of a webview application framework, as a Verus-verified library.

- `src/` is the verified library:
  - `ids` — UUIDs held as `u128`, their hyphenated text, parsing;
  - `text` — the string operations used on URLs (split at a query, removal of a substring,
    prefixes), each proved against a spec function;
  - `protocol` — which asset a request to the custom protocol names, and the answer;
  - `json`, `scripts` — JSON string literals, JavaScript arrays of labels, and the scripts
    injected into every webview;
  - `urls` — the base URL of the application's pages and the URL a window loads;
  - `events` — the events emitted for window events, file drops and menu clicks;
  - `listeners` — the event listener registry (listen, once, unlisten, trigger);
  - `windows` — the window registry, by label;
  - `menu` — menus and the map from the runtime's numeric item ids to item ids;
  - `manager` — the window manager that ties these together, with its one-time salts.
- `app/` performs the effects around it: locks, callbacks, plugins, asset lookup, the data
  directory, and emitting events to webviews.
- `tests/` exercises the library on concrete values.
