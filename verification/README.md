# nmd

A compiler of NMD dossiers and documents into HTML, verified with Verus.

- `src/` is the library. Every function in it carries a contract that Verus
  proves; calls into `regex`, `build_html` and a few `std` functions go
  through small trusted wrappers whose contracts state what those crates
  document.
- `tests/` exercises the library on concrete inputs.
- `app/` is the `nmd` command line (`build`, with `--watch`, and
  `analyze`): it parses the arguments, reads and writes files (documents,
  images, style sheets), reads dossier configurations (`nmd.yml`,
  `nmd.json`) with serde, and, when watching, looks at the files again at
  intervals and lets the library decide whether to build again.
