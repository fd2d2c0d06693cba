# boj-gen

Creates a workspace for a Baekjoon Online Judge problem: a directory named
after the problem number and title, the first sample input as `input.txt`,
and a source template for the chosen language (plus `Cargo.toml` for Rust).

- `src/` is the library, verified with Verus:
  - `text.rs`: Unicode white space, trimming, ASCII lower-casing, decimal
    rendering and line reading, with their specifications and lemmas;
  - `cli.rs`: languages and their names, `--lang` resolution and the
    interactive language menu (as a step function and as a whole session
    over a given input);
  - `crawler.rs`: problem page address, reading the title and sample input
    from a page (through `scraper`), and the error messages;
  - `template.rs`: source templates, file names and `Cargo.toml`;
  - `generator.rs`: title sanitizing, the workspace directory and the
    ordered file-system changes that generate it, and the overwrite question.
- `app/main.rs` is the `boj` command: `clap` argument parsing, the terminal,
  the HTTP request (`ureq`) and the file system, each decision taken by the
  library.
- `tests/` runs the library on concrete values.
