# llm-cli-llama

A command-line chat client for local GGUF language models run through
llama.cpp, whose decision-making core is verified with Verus.

- `src/` is the verified library:
  - `text` — character-level helpers (UTF-8 widths, decimal digits, padding,
    white space, string building);
  - `timestamp` — the `YYYY-MM-DD HH:MM` stamps of saved sessions;
  - `preset` — the catalogue of downloadable models, its `--list-models`
    table and numbered menu;
  - `choice` — reading the number typed at the menu;
  - `urls` — finding the web addresses in a chat message;
  - `page` — turning a fetched HTML page into plain text (via `scraper`);
  - `session` — session file names, automatic names, the review view;
  - `listing` — reading session timestamps (via `serde_json`), ordering and
    labelling sessions;
  - `chat` — chat commands, message augmentation with fetched pages, and the
    conversation state kept in step with the model's context;
  - `generation` — when token generation stops and what the reply is;
  - `cli` — where the model comes from.
- `app/` is the program around it: argument parsing (`clap`), model download
  (`hf-hub`), inference (`llama-cpp-2`), the terminal (`rustyline`,
  `dialoguer`), HTTP (`ureq`) and the session files (`serde`, `dirs`).
- `tests/` exercises the library with concrete inputs.
