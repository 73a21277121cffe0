# Gumicord

The logic of a chat client, verified with Verus: what the gateway's messages
mean, how signing in goes on, how a message body is parsed, and what the screens
show and do.

## Layout

- `src/` is the library. Every function states what it returns or changes, and
  Verus proves it.
  - `model/`, `json.rs`: the domain types and how they are read out of JSON.
  - `gateway/`: one connection and its keeping alive, remote auth, the member
    list, and the settings blob with the guild order and the status.
  - `markdown/`: message bodies.
  - `session.rs`: signing in, from the stored token to the second factor.
  - `shell.rs`, `pages/`, `menu.rs`, `slide.rs`, `input.rs`, `live.rs`: the
    screens as trees of nodes (`ui.rs`), and where presses, swipes and keys go.
  - `time.rs`, `text.rs`, `encoding.rs`: what the rest stands on.
- `tests/` runs the library.
- `app/` is ordinary Rust around it: sockets, the runtime, logging, the
  environment.

Times are milliseconds and lengths thousandths of a pixel, passed in by the
caller. What the outside has to do (send a message, open a link) leaves the shell
as a list of effects, and what came of it is handed back as a value.

What Verus takes on trust are the calls into `base64`, `rsa`, `sha2`, `zstd`,
`serde_json`, `sys-locale` and a few functions of the standard library. Each stands behind an
item whose comment names the function and says what is claimed of it.
