# nexus_cli

The verified core of the Nexus batch-mining command-line client.

- `src/` is the library, written in Verus:
  - `proof_stats` — proof counts per node and in all, their merging after a
    restart, and when an automatic save is due;
  - `memory` — the memory status for a machine's total and free bytes, and the
    node count suggested under it;
  - `node_manager` — the dynamic node manager: the pending queue, the running
    nodes, and one scaling step per memory check;
  - `status` and `text` — how node status messages become display lines;
  - `display` — the batch display's state: node lines, scaling log, paging,
    pausing;
  - `batch` and `adaptive` — batch-run settings, the fixed-line display and the
    adaptive polling configuration;
  - `consts` — queue sizes and back-off durations.
- `tests/` runs the library on concrete values.
- `app/` is the asynchronous runtime around it: reading the machine's memory,
  reading and writing the statistics file, launching and stopping node tasks,
  and drawing the terminal.
