//! Onboarding help for Rust files that no module tree reaches.
//!
//! The library holds the decisions of the banner that an editor shows above a Rust file
//! which rust-analyzer reports as unlinked: when the banner appears, which module file the
//! unlinked file belongs to, and which edit declares it there.

pub mod banner_laws;
pub mod context;
pub mod mod_declaration;
pub mod project;
pub mod rel_path;
pub mod rust;
pub mod text;

pub use rust::RustUnlinkedFileBanner;
