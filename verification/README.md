# session_config

The decisions behind a coding session, written in Rust and proved with Verus:

- the default configuration that a product owner supplies: how fragments of TOML are read and
  merged, how features are switched, when the defaults are a configuration layer, and when they are
  fetched at all;
- the images of a conversation made ready for requests in strict mode;
- the calls that keep a conversation mirrored on the Artesia service.

`src/` is the verified library. Reading TOML is left to the `toml` crate, whose functions are
described in `src/toml_parse.rs` and `src/toml_value.rs`. `app/` runs the decisions: it awaits,
logs and talks to the services, which it reaches through traits. `tests/` runs the library.
