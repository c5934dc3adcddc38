//! Session and state coordination for a single-host karaoke room: the room
//! registry that admits and evicts remote controllers under a capacity and
//! token policy, the room-state engine that applies playback and queue
//! commands, and the collection store that keeps named song collections
//! across rooms, with a stable import/export envelope.

pub mod codec;
pub mod collection;
pub mod dispatch;
pub mod ext;
pub mod registry;
pub mod room;
pub mod server;
pub mod signal;
pub mod song;
pub mod text;
