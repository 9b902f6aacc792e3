# tabby

A terminal workbench for several AI conversations: every project keeps its own
history and input line, and `Tab` switches between them. Input starting with `!`
runs a shell command, input starting with `/` is an internal command (`/new`,
`/list`, `/clear`, `/config`, `/monitor`, `/help`), anything else is sent to the
assistant (a stand-in reply for now).

Layout:

- `src/` — the verified library (Verus):
  - `text.rs`: characters, white space, trimming, words, decimals, byte offsets
    into UTF-8 text;
  - `config.rs`: reading `key = "value"` lines of the config file;
  - `project.rs`: messages and projects;
  - `app.rs`: the workbench state, the key bindings, commands and input lines;
    steps that need disk or shell hand back an `Effect`;
  - `view.rs`: the texts and areas the screen shows;
  - `clock.rs`: the system clock;
  - `laws.rs`: properties that span several steps.
- `app/` — the terminal program: config and project files, the shell, drawing.
- `tests/` — tests of the library.
