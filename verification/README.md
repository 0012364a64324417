# VoxType

Voice typing for the desktop: speech is recorded, trimmed, sent to one of the configured
recognition providers, and the text is inserted where the cursor was when dictation began.

- `src/` is the library: what the programs decide, compute and parse, with contracts that Verus
  proves.
- `tests/` runs the library on concrete values.
- `app/` holds the programs around it: files, processes, sockets and the session bus. One
  executable goes by the name that it is started under: `voxtyped`, `voxtype-settings`,
  `voxtype-tray`, `voxtype-overlay`, `voxtype-cleanup`, and `voxtype` for the command line.

What is believed without proof is marked in `src/` with `external_body`, `assume_specification` or
`external_type_specification`, each with a comment on the outside function that it speaks of:
`serde_json`, `md5`, `zeroize`, the address parser of `tungstenite`, and a few functions of the
standard library on text and channels.
