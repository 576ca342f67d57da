//! The rules of LZCR, which installs the Traditional Chinese texts of Limbus
//! Company.
pub mod archive;
pub mod config;
pub mod convert;
pub mod converter;
pub mod dates;
pub mod error;
pub mod fonts;
pub mod layout;
pub mod numbers;
pub mod paths;
pub mod progress;
pub mod release;
pub mod steam_registry;
pub mod text;
pub mod tui;
pub mod vdf;
pub mod view;
pub mod voice;
pub mod voice_sync;
