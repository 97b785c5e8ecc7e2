pub mod cancel_slot;
pub mod events;
pub mod loop_;
pub mod prompt;
pub mod session;
pub mod tool_registry;
