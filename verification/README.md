# kic_script_gen

A generator of instrument test scripts (Lua/TSP), verified with Verus.

The script is assembled from XML function metadata (groups of composites,
snippets, substitutions, conditions and variables) and from a sweep
configuration (the devices found in the instrument's mainframes and the bias,
step and sweep channels that use them).

## Layout

- `src/` — the verified library.
  - `text` — character-sequence operations (search, replace, split, trim,
    decimal numbers) with their specifications.
  - `script_aggregator` — the script buffer (preamble, body, postamble,
    unique function names, manual and automatic Lua indentation).
  - `xml_handler` — tokenizing XML through `quick-xml`, parsing the metadata
    into groups, composites, snippets, conditions and variables, and
    evaluating composites into script text.
  - `script_gen_manager` — devices, the device and channel bookkeeping of a
    sweep configuration, the function models (initialize, sweep, data report,
    finalize), the catalog of metadata and the whole script.
  - `server` — the decisions of the server: commands read from standard
    input, request kinds, reassembly of chunked messages, page links.
- `tests/` — tests of the library.
- `app/` — the program around it: the web server and its websocket, standard
  input, JSON, files, and the floating-point channel and timing settings.
