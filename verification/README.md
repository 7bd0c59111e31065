# firelite

Local services that behave like parts of the Firebase Emulator Suite: Auth, Cloud Storage,
Pub/Sub, Cloud Tasks and Cloud Functions. What the services do is a library whose behaviour is
stated in contracts and proved with Verus; a thin program around it listens, sends and starts
processes.

## Layout

- `src/` is the library. Its state types are plain values; each request is a function from state
  and request to new state and answer.
  - `auth` holds accounts, tokens, mailed codes and second factors; `storage` buckets and uploads;
    `pubsub` topics, subscriptions and the gRPC form of publishing; `tasks` queues and the plan of
    a dispatch; `control` attached workers; `functions` routes, events, the worker's restarts and
    its output.
  - `laws` (and `auth::validity`, `auth::soundness` and `pubsub::delivery`) state what holds over
    several requests.
  - `json`, `base64_text`, `digest`, `fresh`, `percent`, `text`, `tasks` and `pubsub::wire` hold
    the few functions whose contracts are believed rather than proved: they call `serde_json`,
    `base64`, `sha2`, `uuid`, `reqwest` and the standard library, and each says what it claims of
    the call.
- `tests/` runs the library on concrete requests.
- `app/` is the program: routes, SQLite, HTTP clients, the Node worker and the command line.

## Time and chance

A request that needs the time or fresh identifiers takes them as a `Draw`. The functions that take
a `Draw` have exact contracts; `AuthState::identity_action` and a few others draw for themselves
and promise the same of some draw.

## Running

```sh
firelite daemon --host 127.0.0.1 --port 9099
firelite emulators --project demo-app --watch ./functions
firelite functions --project demo-app --watch ./functions --port 5001
firelite reset --project demo-app --persist ./auth.db
```

The functions worker runs the script `functions_worker.cjs`, which is installed beside the
executable.
