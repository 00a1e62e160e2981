//! Build-system detection and build-output bookkeeping for a universal installer.
pub mod text;
pub mod detect;
pub mod executables;
pub mod paths;
pub mod install;
pub mod makefile;
pub mod cmake;
pub mod buildlog;
pub mod layout;
pub mod commands;
pub mod uniconf;
pub mod display;
pub mod steps;
