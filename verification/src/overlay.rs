//! On-screen status overlay: the RGBA buffer the status text is drawn into.

pub mod overlay;
