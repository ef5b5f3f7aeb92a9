//! TerraHub gateway library: UART framing for the LoRa coprocessor, the
//! TerraLink receive dispatch, the device registry, the cloud agent's
//! claim inbox, and the plain data of the hub configuration.

pub mod admin;
pub mod buffer;
pub mod cloud;
pub mod config;
pub mod radio;
pub mod registry;
pub mod stack;
pub mod text;

pub use config::HubConfig;
