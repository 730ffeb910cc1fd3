//! The decision logic of a ServiceNow command line.

pub mod api;
pub mod argv;
pub mod atf;
pub mod attachment;
pub mod auth;
pub mod body;
pub mod builder;
pub mod change;
pub mod client;
pub mod cmdb;
pub mod config;
pub mod context;
pub mod draft;
pub mod error;
pub mod flags;
pub mod get_record;
pub mod gr;
pub mod graphql;
pub mod init;
pub mod history;
pub mod introspect;
pub mod journal;
pub mod json;
pub mod named;
pub mod open_record;
pub mod order;
pub mod output;
pub mod pages;
pub mod ping;
pub mod profile;
pub mod progress;
pub mod prompts;
pub mod query;
pub mod raw;
pub mod record_ref;
pub mod request;
pub mod schema;
pub mod scores;
pub mod session;
pub mod spelling;
pub mod staging;
pub mod store;
pub mod streams;
pub mod supervisor;
pub mod switch;
pub mod table;
pub mod text;
pub mod transfer;
pub mod user;
pub mod variables;
pub mod watch;
