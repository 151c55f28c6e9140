//! Single-owner conversation state machine for the WhatsApp bridge.

pub mod calls;
pub mod conduct;
pub mod controls;
pub mod courses;
pub mod custody;
pub mod decisions;
pub mod events;
pub mod files;
pub mod inbound;
pub mod laws;
pub mod lifecycle;
pub mod machine;
pub mod model;
pub mod notices;
pub mod order;
pub mod places;
pub mod prompts;
pub mod requests;
pub mod resume;
pub mod steering;
pub mod steps;

pub use model::Action;
pub use model::Coordinator;
pub use model::Effect;
pub use model::Settings;
