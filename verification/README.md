# pst_core

The verified core of PSTPlayer, a PeerCast player that reads and writes the
BBS threads tied to a channel (shitaraba JBBS and 2ch-compatible boards),
and of its relay server `pst-server`.

- `src/` is the library, written and proved with Verus: URL grammars of the
  boards and of PeerCast, dat / subject / post-result parsing, the
  decisions of the BBS clients (what to request, what an answer means),
  YP index parsing and merging, favourite rules, the automatic recording
  schedule, and the helpers of the relay server.
- `tests/` runs the library on concrete values.
- `app/` is the program around it: HTTP, files, the async server and the
  serde copies of the library's types.
