//! Stream decoding and frame composition for the bsdOS display viewer.
//!
//! The v1 Wayland stream parser, the compositor state machine, damage
//! rectangles, receiver bookkeeping and input encoding live here; the
//! platform window, GPU upload and network plumbing live in the
//! application around this library.

pub mod protocol;
pub mod le_bytes;
pub mod clock;
pub mod wayland_stream;
pub mod frame_buffer;
pub mod packet_stats;
pub mod ping_state;
pub mod wayland_packet;
pub mod receiver;
pub mod input;
pub mod overlay;
pub mod config;
pub mod render_loop;
pub mod texture_upload;
