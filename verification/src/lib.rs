pub mod auth;
pub mod capability;
pub mod clock;
pub mod config;
pub mod desktop;
pub mod domain;
pub mod entries;
pub mod hash;
pub mod json;
pub mod paths;
pub mod random;
pub mod session;
pub mod strmap;
pub mod table;
pub mod telemetry;
pub mod text;
pub mod toml_text;
pub mod toml_value;
