# qframework

A layered application framework with its behaviour stated in contracts
and proved: an architecture that owns models, systems and utilities and runs
their two-phase lifecycle, a type-keyed event bus, observable containers,
command and query dispatch, and the rules of the layer derives.

## Layout

- `src/` — the verified library.
  - `architecture.rs`: the architecture, its builder and lifecycle.
  - `ioc.rs`: the container of layer objects, keyed by `TypeId`.
  - `event.rs`: single channels (`EasyEvent`) and the type-keyed bus.
  - `unregister.rs`: subscription handles and lists of them.
  - `bindable.rs`: observable value, list and dictionary.
  - `layers.rs`, `context.rs`, `command.rs`, `query.rs`: the layer traits,
    their capabilities, and the contexts commands and queries run in.
  - `layer.rs`: what each layer derive generates, decided from a plain
    description of the type.
  - `controller.rs`, `bridge.rs`: per-frame controllers and the queue that
    carries events to a frame-based engine.
  - `laws.rs`, `seq_facts.rs`: properties that relate several operations,
    and the sequence facts their proofs use.
- `tests/` — tests of the library.
- `app/` — the parts that stay outside the verified library: the derive
  front end on `syn` syntax trees, the process-wide event bus, and the Bevy
  plugins, resources and systems.
