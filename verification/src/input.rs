//! Input forwarding: key translation, the event queue, and wire encoding.

pub mod input_forwarder;
