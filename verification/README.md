# alex_sdk

Author and check Alexandria `.atool` / `.aagent` packages: a gzipped tar whose
first entry is `atool.json` (the manifest, every declared file's SHA-256 filled
in), followed by the declared files in order, executables with mode `0o755`
and the others `0o644`.

The library under `src/` is written in Verus and its contracts are proved:

- `json` — a JSON value with ordered members, and its mathematical model.
- `manifest` — the manifest types and their JSON form.
- `schema` — the version 2 rules a manifest's JSON form must follow, and the
  exact list of violations.
- `builders` — fluent builders for tools, agents, skills and bundles.
- `pack` — digests, the archive's entries, reading them back, `verify` and
  `inspect`.
- `migrate` — version 1 to version 2 manifest migration, with its warnings.
- `publish` — the multipart request that uploads an archive to a registry.
- `error` — the library's error and its text.

SHA-256 comes from `sha2` and hex encoding from `hex`, each behind a small
trusted wrapper whose contract is stated in its doc comment.

`app/` is the `alex-sdk` command line (`init`, `pack`, `verify`, `inspect`,
`migrate`) and the file, archive and HTTP work around the library: reading
and writing files, the tar and gzip streams, parsing `atool.json` with serde,
and posting to a registry with `ureq`.
