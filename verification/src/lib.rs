//! Verified core of the GitArena web service: the pure decisions and
//! transformations behind its HTTP API.

pub mod access;
pub mod admin;
pub mod archive;
pub mod commit;
pub mod content;
pub mod contributions;
pub mod discussion;
pub mod events;
pub mod explore;
pub mod feeds;
pub mod history;
pub mod issues;
pub mod labels;
pub mod listing;
pub mod locate;
pub mod milestones;
pub mod number;
pub mod org;
pub mod proxy;
pub mod readme;
pub mod releases;
pub mod repo;
pub mod smart_http;
pub mod tags;
pub mod text;
pub mod timeline;
pub mod tree;
pub mod url;
pub mod walk;
pub mod zip_time;
