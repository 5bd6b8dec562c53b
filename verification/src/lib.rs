//! The options of a command line program that runs JavaScript and TypeScript:
//! what command line flags, configuration files and the environment come to when
//! they are taken together.
//!
//! Everything here computes. Reading files, the environment and the network is up
//! to the caller, who hands in what came of it; where several such steps follow
//! each other, a function decides on the next one. Contracts are stated over the
//! characters of texts, and over the `DeepView` of the types.
//!
//! - [`flags`] holds the flags, [`config`] the workspace with its configuration
//!   files ([`config_file`], [`package_json`]), and [`process_state`] what a
//!   process inherits.
//! - [`cli_options`] puts them together, and [`cli_laws`] says what holds of that.
//!   [`options`], [`patterns`], [`emit`], [`folders`], [`import_maps`], [`certs`],
//!   [`cache_setting`], [`packages`], [`versions`] and [`storage_key`] decide on one
//!   subject each.
//! - [`lockfile`] and [`npmrc`] are the files of these names, [`lockfile_text`]
//!   says which lockfiles can be read, and [`managed`] is the npm resolver that
//!   manages packages itself.
//! - [`standalone`] sets up a compiled program, whose modules [`module_loader`]
//!   resolves and loads with the help of [`workspace_resolver`].
//! - [`specifier`], [`path`], [`json`], [`text`], [`lists`] and [`error`] are the
//!   common ground.
//!
//! Calls into other crates stand behind small functions whose contracts are
//! trusted; the comment on each says what is claimed of the other crate. What
//! takes pages to state is named by a function without a body. Paths are POSIX
//! paths.

pub mod cache_setting;
pub mod certs;
pub mod cli_laws;
pub mod cli_options;
pub mod config;
pub mod config_file;
pub mod emit;
pub mod error;
pub mod flags;
pub mod folders;
pub mod import_maps;
pub mod json;
pub mod lists;
pub mod lockfile;
pub mod lockfile_text;
pub mod managed;
pub mod module_loader;
pub mod npmrc;
pub mod options;
pub mod package_json;
pub mod packages;
pub mod path;
pub mod patterns;
pub mod process_state;
pub mod specifier;
pub mod standalone;
pub mod storage_key;
pub mod text;
pub mod versions;
pub mod workspace_resolver;
