# pluely_oauth

The verified core of the Pluely desktop assistant's Rust backend.

- `src/` is a Verus library: percent-encoding and its inverse
  (`urlcode`), reading the loopback redirect and the page sent back
  (`callback`), PKCE values and the authorization URL (`pkce`), the token
  and the token-endpoint requests (`token`), the table of sign-in flows in
  progress (`flow`), the decisions of a sign-in (`signin`), window placement
  and the window commands' decisions (`window`), and the start-up
  environment settings (`startup`). Verus proves every executable function against its
  contract, except four `#[verifier::external_body]` functions whose
  contracts are trusted: they call `String::push`, base64 encoding,
  SHA-256 and the random number generator (the last claims nothing of its
  random byte). The laws that
  span several functions are the `law_*` proof functions.
- `app/` is the Tauri program around it: commands, sockets, threads, HTTP,
  JSON files and the platform window calls.
- `tests/` exercises the library on concrete values.
