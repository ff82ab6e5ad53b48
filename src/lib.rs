//! Network-access policy for a filtering proxy: the policy model, the
//! compiler that turns it into proxy configuration, the staged deployment of
//! that configuration, and the coordination of regeneration work.

pub mod model;
mod clock;
pub mod list;
pub mod errors;
pub mod config;
pub mod file;
pub mod squid;
pub mod api;
pub mod unifi;
pub mod netaccess;
pub mod startup;
pub mod auth;
pub mod text;
pub mod compile;
pub mod deploy;
pub mod coordinator;
pub mod sweep;
