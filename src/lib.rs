//! A local, single-user secret store: a credential collection kept encrypted
//! at rest under a key derived from a master password.
pub mod codec;
pub mod container;
pub mod controller;
pub mod credentials;
pub mod error;
pub mod kdf;
pub mod session;
pub mod vault;
