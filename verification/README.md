# qomicex_connector

A Minecraft room over a virtual network, without a public address: the host opens a room and
gets a room code, guests join with the code and reach the host's game server.

`src/` is the verified library: room codes, frames, protocols, the center of a room, the guest,
the relay nodes, and the set-up of the virtual network. Whatever reads, writes, waits or asks
the system is described by events and actions: a `step` function takes what happened and says
what to do next, and its contract says which.

- `text`, `json`, `error`, `models`: plain data.
- `session`: frames, negotiation, the search for a center, heartbeats.
- `protocols`: what a center answers.
- `center`: the connected guests, the players, the server, the start of a center.
- `guest`: joining a room, and what a guest asks the center.
- `relay`, `util`, `easytier`: relay nodes, network interfaces, the virtual network.
- `client`: the entry that ties rooms and relay nodes together.

`tests/` holds tests on concrete values. `app/` is the program around the library: it performs
the actions with tokio, reqwest and the easytier crates, and offers a command line.
