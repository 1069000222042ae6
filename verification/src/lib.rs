//! Decision logic of a Docker-like MicroVM runtime.

#![allow(unused_imports)]

pub mod api;
pub mod base64;
pub mod boot;
pub mod bytes;
pub mod case;
pub mod cleanup;
pub mod commands;
pub mod config;
pub mod digest;
pub mod duration;
pub mod glob;
pub mod gzip;
pub mod image;
pub mod image_usage;
pub mod json;
pub mod layout;
pub mod number;
pub mod oci;
pub mod path;
pub mod policy;
pub mod seqs;
pub mod sizes;
pub mod socket_paths;
pub mod sort;
pub mod split;
pub mod state;
pub mod status;
pub mod strmap;
pub mod text;
pub mod time;
