//! The logic of a photo and video server: configuration, database operations,
//! libraries, uploads, media paths, thumbnails and place lookups, with their contracts.
use vstd::prelude::*;

pub mod text;
pub mod config;
pub mod common;
pub mod database;
pub mod queries;
pub mod library;
pub mod auth;
pub mod paths;
pub mod media;
pub mod responses;
pub mod network;
pub mod upload;
pub mod maintenance;
pub mod structs;
pub mod ingest;
pub mod geocode;

verus! {

} // verus!
