//! A burn-after-reading secret store: secrets are put with a time to live,
//! and each one is handed out at most once before it is destroyed.
mod clock;
pub mod ident;
pub mod laws;
pub mod store;
pub mod state;
pub mod validate;

pub use state::{create_secret, create_secret_at, get_secret, get_secret_at, AppState};
pub use store::{Secret, SecretStore};
pub use validate::{CreateSecretPayload, SecretError};
