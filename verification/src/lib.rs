//! A small retained-mode UI overlay: rectangular widgets, an inclusive
//! hit test, and an engine that turns pointer samples into widget events.

pub mod event_stream;
pub mod events;
pub mod ui_layer;
pub mod widgets;
