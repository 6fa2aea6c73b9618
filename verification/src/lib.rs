pub mod api;
pub mod bundle;
pub mod bytes;
pub mod errors;
pub mod outside;
pub mod pipeline;
pub mod ratchet;
pub mod seed;
