//! Administrator accounts: the store of records, the checks of the setup
//! wizard, and the sealing of the store at rest.

pub mod setup;
pub mod storage;
pub mod types;

pub use setup::SetupError;
pub use storage::config_exists;
pub use types::{Administrator, AuthConfig};
