# lqos_control

The decisions of the LibreQoS control plane, verified with Verus:

- taking the cross-process lock on the override files (`file_lock`), and the text of its lock
  file (`lock_metadata`);
- when memory pressure calls for a warning or a restart of the daemon (`memory_watchdog`);
- what a command from Insight leads to (`remote_commands`);
- what the web ticker requests and publishes (`network_tree`).

`src/` is the verified library. Work that alternates system calls and decisions is a state
machine there: its step names the next action, and the outcome of that action gives the next
step. What holds of every run is stated in `acquisition_laws`, `lock_text_laws` and at the end
of the other modules. Beyond the specifications that Verus's own library gives to std, the facts
taken on trust are what `String::push` does, and what the `nix` crate says of an error number
(`errno`).

`app/` performs the actions: files, signals, clocks, logging, threads and the bus. `tests/`
runs the library, also against the standard library's own parsing and formatting.
