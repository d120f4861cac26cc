pub mod auth;
pub mod codes;
pub mod config;
pub mod crypto;
pub mod dictionary;
pub mod engine;
pub mod fanout;
pub mod grid;
pub mod ids;
pub mod json;
pub mod letters;
pub mod lobby;
pub mod messages;
pub mod rng;
pub mod scorer;
pub mod session;
pub mod strutil;
pub mod validator;
