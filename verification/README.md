# habitat_builder

Decision logic of a package builder service, verified with Verus.

- `src/server.rs`, `router_model.rs`, `router_laws.rs`, `registry.rs`, `envelope.rs`: the message
  router. `router_model.rs` says what each event brings about, `server.rs` does it, and
  `router_laws.rs` holds what is true of the router as a whole.
- `src/doctor.rs`, `doctor_laws.rs`, `report.rs`, `path.rs`: the depot's repair tool.
  `depot_tree.rs` is a file system as a tree, `repair_model.rs` a repair at work on one, and
  `repair_proof.rs` what it keeps of it; `doctor_laws.rs` says what is true of a repair as a whole.
- `src/api.rs`: finding an origin and creating a channel in it.
- `src/promote.rs`, `number.rs`: promoting a job group, and reading its number.
- `src/net.rs`: the plain values that the services exchange.

Whatever waits on the outside is a machine that is handed events and answers with actions.
`app/` performs the actions: on ZeroMQ sockets, on the file system, and through traits for the
remote services. The traits stand for the broker connection, the archive reader, the depot's
client, the terminal and the generated message types.
