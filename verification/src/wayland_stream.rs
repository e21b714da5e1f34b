//! Wayland Stream Protocol v1: the event parser and the compositor.

pub mod stream_parser;
pub mod compositor;
