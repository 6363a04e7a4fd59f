//! The decision core of a reactive orchestrator that dispatches coding agents onto forge issues.

pub mod acl_compile;
pub mod admission;
pub mod api;
pub mod artifacts;
pub mod backend;
pub mod checkouts;
pub mod cli;
pub mod config_load;
pub mod defaults;
pub mod deploy;
pub mod deploy_job;
pub mod digest;
pub mod dispatch_config;
pub mod dispatching;
pub mod documents;
pub mod envelopes;
pub mod errors;
pub mod fake_codex;
pub mod finalize;
pub mod healing;
pub mod history;
pub mod ingress;
pub mod inquisition;
pub mod issue;
pub mod landing;
pub mod ledger;
pub mod lexicon;
pub mod migrations;
pub mod minting;
pub mod names;
pub mod notifier;
pub mod paths;
pub mod planning;
pub mod preview;
pub mod progress;
pub mod projection;
pub mod pulls;
pub mod rank_acl;
pub mod reading_material;
pub mod reaping;
pub mod reload;
pub mod repo;
pub mod role;
pub mod role_add;
pub mod role_check;
pub mod runner;
pub mod running;
pub mod schema;
pub mod service;
pub mod signature;
pub mod store;
pub mod template;
pub mod text;
pub mod triggers;
pub mod types;
pub mod urls;
pub mod webhook;
pub mod worker;
