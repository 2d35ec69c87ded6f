# eruption_profiles

Profiles of the Eruption keyboard lighting daemon, as a Verus-verified library.

- `src/config.rs`: typed script parameters (`ConfigParam`), their names and
  textual values (`GetAttr`), and lookup by name (`FindConfig`).
- `src/config_map.rs`: a profile's configuration, script name to parameter list.
- `src/profile.rs`: `Profile`, reading and writing typed values, preparing a
  parsed profile, the default profile, lookup by identifier.
- `src/laws.rs`: read-after-write, frame, failure and last-write-wins laws.
- `src/loading.rs`: which directory entries are profiles, which profiles loaded.
- `src/text.rs`: decimal and `#rrggbb` renderings, proved against spec functions.
- `src/editor.rs`, `src/manifest.rs`: the editor's choice of value, process manifests.
- `app/lib.rs`: files, TOML and YAML, and the serialisable copies of the types.

Floating-point parameter values are carried as their IEEE-754 bit patterns.
