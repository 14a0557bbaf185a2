# rust_zero

A verified library for the `rust-zero` toolkit: the REST server configuration
and middleware decisions, and the `rsctl` code generator (the API description
language, its normalisation into a spec, and the project tree generated from it).

- `src/rest/` — server configuration (`RestConf`, defaults, validation), the
  engine's built-in layers, the route table model, CORS, JWT and body-limit
  decisions.
- `src/render.rs` — the Go-template-like renderer used by the generator.
- `src/rsctl/` — parsing (`parse`), normalisation (`semantic`, `spec`), naming
  helpers, route ownership (`routes`), and the generated tree (`tree`, with
  `project`, `bodies`, `typegen`), plus the pipeline decisions (`api`,
  `pipeline`, `model`, argument types).
- `src/sorted.rs`, `src/text.rs` — ordered text sets and text helpers.
- `src/conf.rs` — configuration loading options and formats.
- `app/main.rs` — the `rsctl` command line: argument parsing, file system and
  `git` access around the library.
