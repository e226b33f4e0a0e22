# agcp

A proxy that speaks the Anthropic, OpenAI and Gemini HTTP dialects in front of Google Cloud
Code, and the terminal dashboard that watches it.

`src/` holds the decisions: which request goes where, how it is checked and answered, how a
stream of one dialect becomes one of another, how statistics are counted, how a log is read,
how the settings of other tools are changed, and what the dashboard shows and does on a key or
a click. The functions there have contracts, as far as anything can be said of what they
return, and Verus proves them. Promises that span several functions stand as public proof
functions beside the functions they are about.

`app/` holds what touches the world: sockets, files, the terminal, threads, and whatever is
computed with floating-point numbers. It takes the accounts, the models and Cloud Code through
the traits in `app/backend.rs` and `app/dashboard.rs`.

| Module | About |
|--------|-------|
| `text`, `json`, `order`, `counter`, `clock` | texts, JSON values, order of names, counts, time |
| `routes`, `reply`, `errors` | which request goes where, and the shapes of replies |
| `messages`, `frames`, `serving`, `chat`, `responses`, `legacy`, `sse` | messages, their streams and their dialects |
| `multipart`, `forms`, `images`, `audio` | uploads, images and transcriptions |
| `models`, `gemini` | the models and the Gemini dialect |
| `stats`, `usage` | statistics and the history of token usage |
| `logs`, `log_reader`, `log_stream` | the log: its lines, its end, following it |
| `setup`, `codex`, `comments` | the settings of other tools |
| `app`, `keys`, `mouse`, `tabs`, `log_pane`, `config_pane`, `config_editor`, `warnings`, `updates` | the state of the dashboard |
| `spans`, `highlight`, `log_view`, `panels`, `quota_view`, `about_view`, `lists`, `mappings_view`, `popups`, `screen` | what the dashboard shows |

What the library believes of other crates is said in the doc comments of the functions marked
`external_body` and of the `assume_specification` items.
