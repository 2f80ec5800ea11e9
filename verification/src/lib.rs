//! The rules of the Fosnie workspace backend: who may do what, what a request
//! has to look like, and what is answered, as functions on plain values.

pub mod text;
pub mod error;
pub mod principal;
pub mod address;
pub mod clock;
pub mod encoding;
pub mod ids;
pub mod json;
mod lists;
pub mod order;
pub mod grants;
pub mod trail;
pub mod groundedness;
pub mod http;

pub use error::{AppError, Refusal};
pub use principal::{AuthContext, Id, PlatformRole};
