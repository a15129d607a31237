# weft_terminal

The verified core of Weft, an AI-assisted shell environment: configuration, command
suggestions, plugins, health checks, terminal sessions, shared sessions, tracing and the
performance bookkeeping. Every function under `src/` carries a contract proved by Verus,
except seven small trusted wrappers whose contracts are assumed: `clock::now_millis`
(`chrono::Utc::now`), `performance::available_cpus` (`num_cpus::get`),
`terminal::new_session_id` (`uuid::Uuid::new_v4`), `terminal::decode_lossy`
(`String::from_utf8_lossy`), `text::push_char` (`String::push`), `text::to_lowercase`
(`str::to_lowercase`) and `text::char_is_numeric` (`char::is_numeric`). The results of the
last three that take pages to state are named by `lossy_text`, `lowercase_of` and
`numeric_char`. The `app/` crate is the `weft` command around the library (arguments,
files, processes, network).

Layout:

- `src/text.rs`: string helpers with their specifications.
- `src/config_simple.rs`, `src/config.rs`: the configuration file's model and the full settings.
- `src/suggest.rs`, `src/ai.rs`: static rules, ranking, the Ollama reply format, predictions.
- `src/plugin_store.rs`, `src/plugins.rs`: the plugin store with its security check, and the
  dynamic plugin registry.
- `src/doctor.rs`, `src/cli.rs`, `src/pty.rs`, `src/lib.rs`: checks, command line, relay, app.
- `src/terminal.rs`, `src/collaboration.rs`, `src/debugging.rs`, `src/performance.rs`,
  `src/rendering.rs`: sessions and command validation, sharing, tracing, scheduling and
  pools, display state.
- `tests/`: executable tests of the library.
