//! Attribute-tagged sparse checkouts of git submodules: the pattern engine
//! that reads a custom git attribute across a repository and its nested
//! submodules, and the decisions of the submodule setup and teardown
//! pipelines.
//!
//! Text and collections: [`text`], [`assoc`].
//! Pattern engine: [`attributes`], [`scan`], [`collect`].
//! Commands as values: [`cmd`], [`repository`], [`submodule`], [`sparse`], [`lfs`].
//! Configuration: [`config`], [`discovery`].
//! Commands: [`generate`], [`setup`], [`teardown`].
//! Picker data: [`picker`], [`searcher`].
pub mod assoc;
pub mod attributes;
pub mod cmd;
pub mod collect;
pub mod config;
pub mod discovery;
pub mod generate;
pub mod lfs;
pub mod picker;
pub mod repository;
pub mod scan;
pub mod searcher;
pub mod setup;
pub mod sparse;
pub mod submodule;
pub mod teardown;
pub mod text;
