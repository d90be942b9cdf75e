//! Control-thread logic of a Web Audio engine.
//!
//! The crate decides; the code around it performs. A context keeps the node administration of an
//! audio graph and computes the control messages and events that follow from each call; sending
//! them, rendering samples and talking to the audio device happen outside.
//!
//! * [`concrete_base`] is the administration that every context keeps, [`offline`] a context that
//!   renders into a buffer.
//! * [`liveness`] waits for the render thread without hanging on a dead one.
//! * [`devices`] and [`streams`] decide about audio devices, and the streams to and from them.
//! * The modules whose names end in `_laws` state what holds across several calls.

pub mod backend;
pub mod concrete_base;
pub mod config_laws;
pub mod context_laws;
pub mod device_laws;
pub mod devices;
pub mod events;
pub mod graph_laws;
pub mod ids;
pub mod liveness;
pub mod liveness_laws;
pub mod media_devices;
pub mod message;
pub mod message_laws;
pub mod node;
pub mod offline;
pub mod offline_laws;
pub mod param;
pub mod registration_laws;
pub mod render_laws;
pub mod schedule_laws;
pub mod selection_laws;
pub mod seqs;
pub mod spatial;
pub mod stream_laws;
pub mod streams;
pub mod suspend;
pub mod text;
pub mod text_laws;
