//! Event engine of a cross-platform windowing layer: event identity, per-axis
//! state tracking and normalisation, coalescing of resize bursts, and
//! priority-ordered delivery to listeners.

pub mod buttons;
pub mod event;
pub mod registry;
pub mod state;
pub mod worker;
