//! Verified core of the EaseChat message exchange: the text protocol that
//! clients speak, the registry of identified endpoints and of their channel
//! subscriptions, and the relay frames that the nexus sends out.

mod strings;
mod table;
pub mod clock;
pub mod reader;
pub mod frame;
pub mod protocol;
pub mod registry;
pub mod service;
pub mod adapt;
pub mod legacy;
pub mod console;
