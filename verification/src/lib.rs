//! Vitrine, a gallery of pictures on a content store and a database.
//!
//! Works are taken in over HTTP, listed, and taken out again. This library holds
//! the rules: what a request may ask for, what is stored under which key, which
//! statements a change consists of, and in which order things are done, so that
//! nothing is lost half-way. It does no input or output: a handler is a machine
//! that names the next action and is told what came of it (see [`effect`]).

pub mod auth;
pub mod catalog;
pub mod effect;
pub mod fingerprint;
pub mod gallery;
pub mod image_review;
pub mod ingest;
pub mod json;
pub mod keys;
pub mod limits;
pub mod meta;
pub mod outside;
pub mod prune;
pub mod publication;
pub mod removal;
pub mod request;
pub mod retract;
pub mod rows;
pub mod sql;
pub mod tags;
pub mod telegram;
pub mod text;
pub mod work_prune;
