# orbital

The decision logic of a small publish/subscribe service kernel, verified
with Verus, and the program that runs it.

- `src/registry.rs` — the registry of services, a `HashMap` from identifier
  to service: names, the topics each service listens to (a list without
  repeats), and identifiers no service has yet, with its laws (subscribing routes,
  unsubscribing silences, each change is local, unsubscribing undoes a
  subscription, subscribing is idempotent, revising keeps topics).
- `src/broker.rs` — the kernel's broker as a step function from registry and
  message to registry and action, with its laws.
- `src/kernel.rs` — the broker's view of the kernel's messages and the
  channel registrations made at boot.
- `src/basic.rs` — the broker and services of the simpler kernel.
- `src/appbroker.rs`, `src/appmanager.rs` — the app broker and the module
  manager: routing of app messages between apps or modules.
- `src/services.rs` — what the camera, tensor, display and WebAssembly
  services subscribe to and answer.
- `src/frame.rs` — pixel work: copying camera frames into the shared
  512 x 512 frame, painting it into the display texture, scaling it down for
  the face detector, outlining faces.
- `app/` — `main`, the threads and channels, the Objective-C camera capture,
  the Makepad display and the wasmtime host.
- `tests/` — tests of the library on concrete values.
