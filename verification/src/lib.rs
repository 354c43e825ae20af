//! Idempotent provisioning of services and users on a reverse proxy's
//! management interface.
//!
//! The library decides; it never talks to the network. A caller performs the
//! remote calls that the library hands out as [`provisioning::Action`] values
//! and feeds each answer back as a [`provisioning::Reply`].

pub mod addr;
pub mod config;
pub mod db;
pub mod errors;
pub mod laws;
pub mod model;
pub mod provisioning;
pub mod uri;
