//! Model of a native GL surface host: the lifecycle of lazily created
//! render contexts, the handle registry that the windowing callbacks go
//! through, and the small pieces of application state that the demo GUI
//! shows each frame.

pub mod app_state;
pub mod registry;
pub mod surface;
pub mod text;
