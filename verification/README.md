# slirc_client

An IRC client whose logic is a library verified with Verus, around which a
thin egui application runs.

## Layout

- `src/` — the verified library:
  - `validation`, `text`: input checks and the string helpers the rest uses;
  - `buffer`, `buffers`, `users`, `state`: message buffers, the buffer map,
    user lists and the session state;
  - `events`, `buffer_events`: what each backend event does to the state;
  - `commands`, `compose`, `input_state`: slash commands, the message input
    (Enter, Tab completion, history);
  - `backend`: IRC messages as plain values, routing of incoming messages to
    events, and the registration state machine (capability negotiation, SASL);
  - `dialog_manager`, `ui/*`: dialogs, quick switcher, shortcuts, themes,
    message grouping, IRC formatting, links, topic bar and panels;
  - `logging`, `config`: chat log lines and file names, saved networks.
- `tests/` — tests of the library.
- `app/` — the program: window and drawing (egui), the network thread
  (Tokio, TLS, slirc-proto), chat log files and the settings file.
