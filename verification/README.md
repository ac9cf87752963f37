# Argus

An MCP server that gives an agent evidence from a running Windows process: bytes at
addresses, module and RVA context, disassembly, callers and callees, resolved imports,
and a ledger that keeps what has been established apart from what is still a guess.

The library under `src/` holds everything that decides or computes, written and proved
in Verus. It works on an image of memory (regions and modules) and on plain values, and
never touches the system. The program under `app/` reads the live process, the files and
the network, and hands plain values over.

| Part | Modules |
|---|---|
| Evidence and the image of memory | `evidence`, `memory`, `hits`, `bytes`, `find`, `aob`, `seqs`, `text` |
| Searches and disassembly | `search`, `callers`, `transfer`, `decode`, `analysis`, `flow`, `dispatch`, `rtti`, `pe`, `values` |
| Text scans | `text_scan`, `patterns`, `text_session` |
| Reading a live process | `snapshot`, `processes`, `pointers`, `structs`, `hydra` |
| Requests and reports | `json`, `arguments`, `options`, `requests`, `shapes`, `reports`, `render`, `render_tools`, `render_scans`, `render_code`, `plain` |
| Ledger of hypotheses | `ledger`, `ledger_reports`, `tally` |
| Server and router | `tools`, `server`, `router` |

The contracts state results over views: a sequence for each list and text, `int` for
sizes, and the image as a `MemoryView`. Laws that relate several functions are the public
proof functions whose names start with `law_`.

Two crates are called from the library behind trusted declarations: `iced-x86` decodes
and formats instructions (`decode`), `regex` finds matches (`patterns`); their results are
named, not described. The rest of what is trusted are a few functions of `std`.
