//! Notification preferences, the settings wire format, and the client state that
//! keeps them, for a desktop Discord client.
pub mod model;
pub mod wire;
pub mod protocol;
pub mod retention;
pub mod text;
pub mod auth;
pub mod client;
pub mod member_search;
pub mod account;
pub mod sounds;
pub mod ui;
pub mod badge;
pub mod captcha;
pub mod settings_laws;
pub mod preference_laws;
