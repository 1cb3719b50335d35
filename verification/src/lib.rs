//! Finds the `Migrations` type alias among the top-level items of a source
//! file, flattens the type it stands for into an ordered list of migration
//! names, and sorts those names by whether they follow the naming convention
//! (`Unreleased`, or a capital `V` and four digits).
pub mod classify;
pub mod discover;
pub mod error;
pub mod flatten;
pub mod locate;
pub mod migration;
pub mod naming;
pub mod opts;
pub mod parse;
pub mod report;
pub mod scan;
pub mod search;
pub mod shape;

pub use classify::check_naming;
pub use discover::get_files;
pub use error::{ScanError, SubmigError};
pub use flatten::{get_migration, Policy};
pub use locate::{get_migrations, locate};
pub use migration::Migration;
pub use naming::is_conforming;
pub use opts::{ListOpts, Opts, SubCommand};
pub use report::{list_migrations, Listing};
pub use scan::{find, scan_file, scan_items, scan_source, SourceFile};
pub use search::{FileRecord, SearchResult};
pub use shape::{TopLevelItem, TypeExpr};
