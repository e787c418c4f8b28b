//! Lock-screen core: pixel colours, per-output surface buffers, the
//! screen-obscuring effect, keyboard-driven authentication state and the
//! session that keeps every output locked until a login succeeds.

pub mod color;
pub mod window;
pub mod effects;
pub mod input;
pub mod session;
