//! Verified core of the erebus/daedalus self-contained executable packager.
pub mod bytes;
pub mod error;
pub mod sisr_header;
pub mod hashing;
pub mod manifest;
pub mod signing;
pub mod chunker;
pub mod sisr_stage;
pub mod text;
pub mod cron;
pub mod jsonread;
pub mod layer;
pub mod mcp;
pub mod metadata;
pub mod flatpak;
pub mod strmap;
pub mod snap;
pub mod config;
pub mod detect;
pub mod entrypoint;
pub mod build_args;
pub mod build_steps;
pub mod build_env;
pub mod build_target;
pub mod deps;
pub mod legacy;
pub mod launcher;
pub mod fspath;
pub mod paths;
pub mod sandbox;
pub mod startup;
