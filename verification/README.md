# ariax-engine

The decision core of a download engine, written in Verus. `src/` holds what the
engine decides and computes, with contracts that Verus proves; `app/` performs what
it decides; `tests/` runs it.

## Startup

`session`, `queues`, `reconcile`, `reconcile_order`, `credentials`, `startup`, `startup_restore`,
`startup_executor`, `startup_filesystem` and `probe_targets` bring what the session
store and the journals say to one consistent state: each fault has its error, queues
are repaired to a dense order, and repairs are applied once and in order. The order
in which records are handed over does not matter. `bootstrap`
and `shutdown` are the machines that lead a process through its start and its end.

## Running

`runtime_effects` and `effect_sink` carry effects between the scheduler and its
workers within bounds. `slow_slots`, `server_stats`, `byte_budget` and `protocols`
hold the policies around transfers; `transport`, `sftp`, `sftp_connect`,
`known_hosts`, `host_trust` and `glob` those of connections.

## Documents

`metalink*` reads Metalink documents event by event. `session_file`,
`session_import`, `session_aria2` and `session_render` read and write sessions, in
JSON and in text; `session_laws` proves that text that was written is read back.

## Control

`rpc_budget`, `rpc_shared`, `rpc_broker`, `rpc_events`, `rpc_filter_order`,
`rpc_result`, `rpc_client` and `rpc_compat` account for requests, deliver events and
shape results. `native_api`, `native_calls`, `native_queries`, `download_options`,
`bittorrent`, `task_status` and `engine_build` are the interface for programs that
embed the engine.

Proof functions whose names begin with `law_` state what holds of several functions
together.
