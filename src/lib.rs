//! Loader for campaign descriptor files and the list files they name: a
//! schema of directives, path resolution, and a record store that merges
//! list lines by identifier, with aliases and key renaming.

pub mod assoc;
pub mod error;
pub mod laws;
pub mod path;
pub mod pcc;
pub mod schema;
pub mod store;
pub mod text;

pub use error::PccError;
pub use path::{locate_pcc, resolve_lst_path};
pub use pcc::{Pcc, PccAction, PccConfig, PccDatum};
pub use schema::{schema_lookup, PccTag};
pub use store::{PccElem, PccList};
