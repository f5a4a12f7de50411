//! A paste service's core: uploads are stored once per content under the
//! hash of their bytes, reached through short random links that expire, and
//! collected when the last link to them is gone.
pub mod access;
pub mod blob_store;
pub mod cleanup;
pub mod clock;
pub mod config;
pub mod digest;
pub mod error;
pub mod expiry;
pub mod mime;
pub mod retention;
pub mod service;
pub mod store;
pub mod tail;
pub mod text;
pub mod upload;
pub mod url_index;
pub mod utils;

pub use access::handle_access;
pub use config::{init_config, Config};
pub use error::AppError;
pub use service::{conf, Service};
pub use store::{init_db, Store};
pub use upload::handle_upload;
pub use utils::get_full_path;
