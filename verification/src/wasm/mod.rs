//! The key exchange of the browser SDK's end-to-end encryption.
pub mod keys;
