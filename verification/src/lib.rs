//! Verified core of the jamsession daemon: team-message rendering, slash
//! command parsing, the `jamsession` tool's command dispatch, trace rows and
//! team-table queries, debug-viewer request handling, configuration
//! accessors, the dispatcher's session state machine, the conversation with
//! a newly spawned agent, and the display of lifecycle-event traces.

pub mod text;
pub mod order;
pub mod number;
pub mod table;
pub mod json;
pub mod jsontext;
pub mod message;
pub mod slash;
pub mod command;
pub mod db;
pub mod traces;
pub mod debug;
pub mod config;
pub mod tables;
pub mod dispatcher;
pub mod model;
pub mod pipe;
pub mod events;
pub mod factory;
pub mod errors;
pub mod cli;
