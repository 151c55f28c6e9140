//! Building blocks for the self-hosted WhatsApp-to-Codex bridge.

pub mod approval;
pub mod approval_laws;
pub mod attachment;
pub mod codex;
pub mod command_catalog;
pub mod commands;
pub mod config;
pub mod coordinator;
pub mod health;
pub mod http;
pub mod ids;
pub mod ledger;
pub mod messaging;
pub mod notifications;
pub mod onboarding;
pub mod openwa;
pub mod output;
pub mod protocol;
pub mod secret;
pub mod service;
pub mod setup_view;
pub mod signature;
pub mod state;
pub mod text;
pub mod transcript;
pub mod transport;
pub mod transport_webhook;
pub mod webhook;
