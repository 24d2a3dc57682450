# echo_scribe

The logic of Echo Scribe, a desktop application that writes down what is spoken, keeps notes,
records meetings and screens, and answers questions about what it has kept.

- `src/` is the library. Every function in it has a contract. Verus proves the contracts, except
  those of the few functions marked `external_body` and of the items that begin with
  `assume_specification`: these call `std`, `chrono`, `serde_json` or `ulid`, their contracts are
  believed, and the comment above each says what of. The first layer of the library says what the
  usual operations on texts, paths, dates and JSON documents mean; the second holds the rules of the
  application; the third holds its procedures as states with a current step, so that what happens
  after each outcome of each step is decided, and proved, in one place. Proof functions named
  `law_..` state what holds of whole runs and of several functions together.
- `tests/` runs the library.
- `app/` is ordinary Rust around it: files, the clipboard, keys, channels, and the traits through
  which the windows, models, database and services of a desktop shell are reached.
