//! Verified core of a desktop helper for a Yggdrasil mesh node: which
//! binaries and configuration files it trusts, how it talks to
//! `yggdrasilctl` and launchd, how it ranks public peers and probes them,
//! and how it edits the peer list of a node's configuration.
pub mod text;
pub mod quoting;
pub mod order;
pub mod peers;
pub mod json;
pub mod command;
pub mod environment;
pub mod node;
pub mod binaries;
pub mod launchd;
pub mod config;
pub mod clock;
pub mod net;
pub mod scripts;
pub mod machine;
pub mod apply;
pub mod setup;
pub mod laws;
