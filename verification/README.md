# ai-shell

`ai` turns natural-language requests into shell commands. It sends a prompt with local context to an
OpenAI-compatible chat API and shows the command that comes back, with an explanation, dry runs and a
menu of actions. Replies are kept in an SQLite history and replayed when the same is asked again.

The decisions that `ai` takes are a library verified with Verus, in `src/`:

- `text`: trimming, prefixes, lines and joining;
- `bytes`: bytes as texts with one character for each byte;
- `json`: the members of a JSON object and the elements of an array, and how they are written;
- `json_laws`: that what is written as JSON reads back, and that the order of members is free;
- `chat`: the messages of the chat API, read from and written to JSON;
- `plan`: the plan in an answer of the model;
- `prompt`: the system prompt;
- `process`: the shell, the operating system, directory listings, and how commands are run;
- `config`: the configuration file, and where files lie;
- `history`: what the history database is asked, and what its answers mean;
- `client`: how a plan is asked for, from the history or from the API;
- `session`: what the user can do with a command or a question;
- `conversation`: the rounds in which a prompt grows;
- `error`: what can go wrong, and how it is told.

`app/` is the program around it: arguments, files, the network and the terminal. `tests/` runs the
library, with `rusqlite` for the statements of the history.

What rests on other crates without proof stands in functions marked `#[verifier::external_body]`, each
with a comment that says what is taken for granted.
