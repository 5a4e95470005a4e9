//! Keeps a catalog of remote media items in step with what has been fetched
//! to disk.
//!
//! The library holds the catalog and every decision about it: which items
//! still need fetching, which flags disagree with the files on disk, which
//! file names collide and how they are told apart, how a round of fetching is
//! laid out and what it yields. Reading and writing files, talking to the
//! remote side and running workers are left to the program around it, which
//! hands the library plain values and acts on what it gets back.

pub mod app_storage;
pub mod catalog;
pub mod clock;
pub mod config;
pub mod downloader;
pub mod error;
pub mod google_api;
pub mod google_photos;
pub mod my_db;
pub mod scheduling;
pub mod service;
pub mod sync;
pub mod text;
pub mod util;
