//! The interactive session: its state, the keys it understands and the
//! events that drive it.

pub mod app;
pub mod event;
pub mod laws;

pub use app::App;
pub use event::Event;
