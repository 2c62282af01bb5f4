//! Decision core of a WebDAV front end for a cloud drive.
mod outside;
pub mod cache;
pub mod chunks;
pub mod clock;
pub mod download;
pub mod drive;
pub mod error;
pub mod file;
pub mod fill;
pub mod number;
pub mod open;
pub mod ops;
pub mod part;
pub mod path;
pub mod plan;
pub mod replies;
pub mod settle;
pub mod startup;
pub mod steps;
pub mod text;
pub mod transfer;
pub mod upload;
pub mod vfs;
