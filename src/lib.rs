//! A typed publish/subscribe emitter: independent emitters, each with its own
//! handler registry keyed by an (event kind, payload type) pair, routed through
//! one shared dispatch queue held by a [`Hub`].
pub mod key;
pub mod registry;
pub mod model;
pub mod hub;
pub mod emitter;
pub mod laws;

pub use crate::emitter::EventEmitter;
pub use crate::hub::Hub;
pub use crate::key::CompoundKey;
pub use crate::model::{Envelope, Message, Outcome};
pub use crate::registry::HandlerRegistry;
