//! A reverse proxy core that rotates among a pool of upstream credentials,
//! guards inbound access by bearer tokens and plans the relay of each
//! upstream response.

pub mod key_manager;
pub mod authorization;
pub mod relay;
pub mod config;
pub mod state;
