# rustliza

A runtime for conversational agents. An agent reads what is said to it on Discord,
Telegram, Twitter, over HTTP or at a terminal, decides whether to answer, asks a
language model, runs the actions that the answer names, and remembers all of it.

The decisions and computations are in `src/`, a library that is verified with
[Verus](https://github.com/verus-lang/verus): every public function but the readings of a
clock states in its contract what it returns or changes, and Verus proves it. What holds
across several functions is stated as public proof functions beside them.

## Layout

- `src/` — the library.
  - `template`, `conditions`, `tokens`, `blocks`, `patterns` — prompt templates, what
    they come to, and the expressions they are read with.
  - `pipeline`, `compose`, `respond`, `summarize`, `chain`, `planner`, `hooks`,
    `runtime` — the course of a message through the agent.
  - `models`, `sse`, `retry`, `metrics` — what models are asked, and how answers that
    arrive in pieces are put together.
  - `storage`, `types`, `character`, `session` — what is remembered, and how it is
    written to and read from tables.
  - `knowledge`, `search`, `rank` — documents, their fragments and how they are found.
  - `coding`, `tools`, `tags` — the coding agent: its loop and its tools.
  - `platforms`, `polling`, `api`, `cli` — the ways into the agent.
  - `vamp`, `parody`, `vamp_api` — parody coins.
  - `bootstrap` — the actions, evaluators and providers every agent has.
  - `text`, `lines`, `bytes`, `octets`, `number`, `ids`, `time`, `error` — plain values.
  - `outside` — the functions of other crates that the library calls. Their contracts
    are taken on trust; each says what it claims.
- `tests/` — tests that run the library with the real crates.
- `app/` — the program: requests, the database, streams, floating point and the
  browser. It makes the calls that the library asks for and hands back what came.

## Texts and numbers

Texts are sequences of characters; where the program counts bytes, so do the contracts
(`bytes`). Floating-point values never enter the library: they are carried as bit
patterns or as integer keys of the same order (`rank`).

## Models

`--small-model` and `--large-model` together name the models to use. Without both, the
models of Anthropic's service are those that `ANTHROPIC_SMALL_MODEL` and
`ANTHROPIC_LARGE_MODEL` name, and those of OpenAI's have default names.

## Crates

`takecell` is named for its version alone: `teloxide` uses it, and its next release needs
a newer compiler than Verus comes with.
