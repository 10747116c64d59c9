# fontspector checks, verified

The decision logic of a set of font quality checks (OpenType, Google Fonts,
Fontwerk and universal checks), their hotfixes, and the profiles that group
them, written in Verus and proved against contracts.

- `src/` is the verified library. Each check takes font bytes (or a
  collection of files) and returns its statuses; its contract states the
  exact statuses over the values read from the font. Reading and rewriting
  OpenType binaries is done by fontations, behind the trusted items of
  `src/font.rs`; the markdown table of the gasp check is printed by tabled.
  `src/profile.rs` and `src/sections.rs` hold profiles and the registry:
  a profile is registered with the sections of the profiles it includes
  merged in and its excluded checks left out; `src/listing.rs` lists each
  registered check with the sections and profiles that run it.
  `src/laws.rs` holds properties stated for all inputs: when each check
  passes, that each hotfix yields a font whose check accepts the values
  it fixed, and which
  checks a registered profile runs.
- `tests/` runs the checks on fonts built with fontations.
- `app/` holds what the library cannot: reading configuration files, the
  caret slope check (floating point), the network lookup of
  `fontdata_namecheck`, a runner for the checks of a profile, and the Python
  and WebAssembly bindings.
