//! Control-panel core for a reverse-proxy tunneling client: profile
//! rendering and the supervision of one client process per profile.
pub mod config;
pub mod laws;
pub mod paths;
pub mod status;
pub mod supervisor;
pub mod table;
