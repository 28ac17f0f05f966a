pub mod errors;
pub mod helpers;
pub mod text;
pub mod signature;
pub mod settings;
pub mod throttling;
pub mod blockchain_updater;
pub mod json;
pub mod blockchain;
pub mod clock;
