//! The cryptography probes.

pub mod is_password_shucking;
pub mod is_unsafe_prehash;
pub mod is_weak_algorithm;
pub mod is_weak_argon2;
pub mod is_weak_bcrypt;
pub mod is_weak_scrypt;
pub mod resolve;
