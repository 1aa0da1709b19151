//! End-to-end encrypted and signed media payloads for Media over QUIC.
pub mod chat;
pub mod codec;
pub mod crypto;
pub mod encoding;
pub mod engine;
pub mod error;
pub mod key_store;
pub mod legacy;
pub mod legacy_chat;
pub mod nonce;
pub mod random;
pub mod text;
pub mod ui_model;
pub mod util;
pub mod wire;

pub use error::MoqSecureError;
pub use nonce::derive_nonce12;
pub use key_store::{InMemoryKeyStore, KeyStore, KeyStoreError};
pub use wire::{decrypt_frame, encrypt_frame, Frame, WireHeader, MAGIC, VERSION};
