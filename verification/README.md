# zigbee_cluster_library

Zigbee cluster servers and base device behaviour, with contracts that Verus proves.

- `src/` is the library.
  - `types`, `bytes`, `frame`, `payload`, `context`: identifiers, encodings, frames.
  - `cluster_server`, `dispatch`, `dispatch_laws`: what a cluster server is, and how a
    received frame reaches one.
  - `reporting`, `reporting_laws`, `attribute_store`, `bounded`: attribute reports, an
    attribute table, lists of bounded length.
  - `common`, `lighting`, `hvac`, `measurement`: the cluster servers.
  - `device`, `sensor`: devices as sets of servers, and a sensor.
  - `bdb`: a node in its network. Commissioning, device discovery, bindings, reports.
    Radio and cryptography are not here: each procedure says what is to be done there
    and goes on with what came back.
- `tests/` runs the library.
- `app/` is what surrounds it: the loops that drive a node on a stack, persistent
  storage, a sensor, and the project's tasks.

Functions whose names begin with `law_` state what holds of several operations
together.
