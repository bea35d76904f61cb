# network-manager-rs

A Linux network manager whose rules are verified with
[Verus](https://github.com/verus-lang/verus): wire formats, connection profiles,
the activation state machine, IP configuration and the values that clients see on
D-Bus.

## Layout

- `src/` is the library. Verus checks every function in it; all but constructors of
  empty values state in a contract what they return or change.
  - `linux/` — rtnetlink and nl80211 messages, event queues, DHCPv4, the resolver
    file, IP configuration and its teardown, the supplicant boundary, and the engine
    that combines them.
  - `connection/` — profiles and their validation, devices, secrets, the autoconnect
    order, the profile store, the state machine and the activation manager.
  - `dbus/` — object paths, settings dictionaries and profiles, devices, access
    points, IP configurations, errors, and the signals that follow from events.
  - `daemon.rs`, `authorization.rs`, `command.rs` — what ties these together.
  - `net.rs`, `net_text.rs`, `text.rs`, `bytes.rs`, `sort.rs`, `table.rs`,
    `io_error.rs` — addresses and their texts, texts, octets, stable sorting, maps
    and I/O errors.
- `tests/` runs the library on concrete values.
- `app/` is `nmd`: the sockets, files, environment variables and bus connections
  around the library. It performs what the library decides, and hands back what
  happened.

## How to read the contracts

Each type has a view: texts are sequences of characters, lists are sequences,
addresses are numbers. Contracts are stated over views.

A boundary that others implement (a backend, a store, an engine, a supplicant, a
DHCP client) is a trait with a spec function for what an implementation may answer,
or for the calls it received so far. Contracts of the code that uses a boundary say
which calls it makes and what it makes of every answer. For each boundary they say in
which order its calls come. Where an engine drives several boundaries, it keeps one
ghost sequence of the calls to all of them: `LinuxIpEngine::order` for addresses,
leases and DNS, `LinuxActivationEngine::stages` for the link and IP.

Laws that relate several functions are public proof functions. Examples: what an
activation did is undone when it fails or is torn down, what was written to settings
is read back, a secret never reaches the bus, and a packet that was built is parsed
to what it was built from.

## What is believed

Five functions outside the library are taken at their word: `String::push`,
formatting a string with `{:?}`, `String::from_utf8_lossy`, `u16::to_ne_bytes`, and
zbus's check of object paths. Their contracts stand beside the calls.
