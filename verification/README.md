# web_audio_control

Control-thread logic of a Web Audio engine, written and verified with Verus.

A context keeps the administration of an audio graph: it hands out node ids, keeps the list of
connections, and decides which control messages go to the render thread and which events to its
handlers. Around that, the crate schedules suspensions of offline renderings, assembles buffers
that are rendered in pieces, tells when a render thread is gone, gives audio devices stable ids,
and decides how streams to devices are configured, set up, suspended and resumed.

## Layout

| path | content |
| --- | --- |
| `src/ids.rs`, `message.rs`, `node.rs`, `param.rs`, `events.rs` | the vocabulary: ids, messages, nodes, params, events |
| `src/concrete_base.rs`, `context_laws.rs` | the administration of a context, and what holds across calls |
| `src/spatial.rs` | the audio listener |
| `src/liveness.rs` | waiting for the render thread without hanging on a dead one |
| `src/offline.rs`, `suspend.rs`, `offline_laws.rs` | offline contexts |
| `src/backend.rs`, `media_devices.rs`, `devices.rs`, `device_laws.rs` | errors of the audio backend, devices and their ids |
| `src/streams.rs`, `stream_laws.rs` | streams to and from devices |
| `src/seqs.rs`, `text.rs` | facts about sequences, numbers in texts |
| `tests/` | tests that run the library |
| `app/` | what surrounds the library: shared handles, async rendering, device IO, floating point |

The contracts speak of views: an operation on a context is a function from one view to the next
(`BaseView::connected`, `OfflineView::rendered_upto`, ...), and the executable code is proved to
perform exactly that step. Where the render thread, a queue or a callback has a say (`flush`, `get`,
`register`, ...), the contract relates the two views by what came back from there, whatever it was.
Files that end in `_laws.rs` prove properties over several steps.

Floating point numbers pass through the library as bit patterns (`Float32`). What only a render
thread understands, event handlers, promises and callbacks are type parameters.
