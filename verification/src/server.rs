//! The event hub: its commands, and the manager that owns channels and
//! clients.

pub mod command;
pub mod hub;
pub mod manager;
pub mod web;

pub use command::{Command, Message};
pub use hub::{Attempt, ChannelModel, HubModel};
pub use manager::{Manager, Outcome};
