//! Configuration-resolution core for a game add-on manager: locating the
//! per-flavor add-on and settings directories on disk despite case drift,
//! a versioned column-layout schema, and decoding of the remote add-on
//! catalog document.

pub mod catalog;
pub mod column;
pub mod config;
pub mod flavor;
pub mod paths;
pub mod strutil;

pub use catalog::Catalog;
pub use catalog::CatalogAddon;
pub use catalog::CatalogError;
pub use catalog::Source;
pub use column::ColumnConfig;
pub use column::ColumnConfigV2;
pub use config::Config;
pub use config::Wow;
pub use flavor::Flavor;
