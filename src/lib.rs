//! Installs prebuilt command-line tools: classifies release assets, finds the
//! executable inside an unpacked archive and decides how it is copied into place.
pub mod text;
pub mod archive;
pub mod install;
pub mod config;
