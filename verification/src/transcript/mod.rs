//! Transport-neutral semantic projection of a Codex conversation.
//!
//! Protocol items are stored instead of provider text, so that every surface can
//! apply its own layout while sharing item identity, ordering, and lifecycle.

pub mod laws;
pub mod model;
pub mod projector;
pub mod streams;

pub use model::EntryModel;
pub use model::EntryOrigin;
pub use model::EventModel;
pub use model::KeyModel;
pub use model::NoticeModel;
pub use model::OptionModel;
pub use model::ProjectionEvent;
pub use model::QuestionModel;
pub use model::RequestModel;
pub use model::TranscriptEntry;
pub use model::TranscriptKey;
pub use model::TranscriptNotice;
pub use model::UserInputOptionPresentation;
pub use model::UserInputPresentation;
pub use model::UserInputQuestionPresentation;
pub use projector::ProjectorModel;
pub use projector::TranscriptProjectionOptions;
pub use projector::TranscriptProjector;
