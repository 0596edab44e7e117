//! Planner for a staged operating-system image build.
//!
//! The build turns the object files that the compiler left behind into the
//! modules of a bootable image: it finds the freshest object of each crate,
//! merges the objects of crates that were built into several, brings the
//! sections of each module into the loader's layout, splits off the debug
//! information, and assembles the image for one of two boot loaders.
//!
//! Every stage is a function from its options and from what was seen of the
//! file system to a plan of file operations and tool calls. The caller
//! carries the plan out; nothing here touches the file system or starts a
//! tool.

pub mod add_bootloader;
pub mod archive;
pub mod artifact;
pub mod build_cells;
pub mod config;
pub mod copy_crate_objects;
pub mod crate_set;
pub mod directories;
pub mod discover;
pub mod document;
pub mod error;
pub mod fs_model;
pub mod gen_mk_config;
pub mod link_nano_core;
pub mod link_nanocore;
pub mod options;
pub mod plan;
pub mod relink_objects;
pub mod relink_rlibs;
pub mod run_qemu;
pub mod scan;
pub mod stage;
pub mod strip_objects;
pub mod text;
