//! A registry that proxies other registries.
//!
//! A repository `f/<alias>/<repo>` stands for the image `<repo>` of the remote
//! registry that is configured under `<alias>`. This library finds that registry
//! ([`config`]), settles how it is spoken to ([`config`], [`ecr`]), and decides
//! what is to be downloaded from it and kept ([`download`], [`manifest`]). It
//! asks nothing of the network, the database or the disk itself: it says what is
//! to be asked, and goes on from the answer. What whole downloads come to, and
//! what they leave in the database, is proved in [`download_run`],
//! [`manifest_run`] and [`database`].

pub mod config;
pub mod database;
pub mod digest;
pub mod download;
pub mod download_run;
pub mod ecr;
pub mod error;
pub mod image;
pub mod manifest;
pub mod manifest_run;
pub mod text;
