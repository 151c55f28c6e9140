//! Provider-neutral messaging primitives for remote Codex surfaces.
//!
//! Nothing here knows about WhatsApp, HTTP, credentials, or provider SDKs. These
//! are the values and the durable scheduling state that provider adapters share.

pub mod journal;
pub mod laws;
pub mod model;
pub mod records;
pub mod runs;
pub mod worker;

pub use journal::DeliveryJournal;
pub use journal::DeliveryRecord;
pub use journal::DeliveryState;
pub use journal::StoredRecord;
pub use model::DeliveryIntent;
pub use model::InboundEnvelope;
pub use model::ProviderAttachment;
pub use model::ProviderCapabilities;
pub use model::ProviderConversationId;
pub use model::ProviderDeliveryId;
pub use model::ProviderError;
pub use model::ProviderMessageId;
pub use model::ProviderStatus;
pub use model::segment_text;
pub use worker::DeliveryAction;
pub use worker::DeliveryWorker;
pub use worker::DeliveryWorkerCommand;
pub use worker::DeliveryWorkerEvent;
