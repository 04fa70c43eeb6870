//! The verified core of a local, offline dictation application.
pub mod audio;
pub mod capture;
pub mod catalog;
pub mod control;
pub mod download;
pub mod edit;
pub mod engine;
pub mod json;
pub mod live;
pub mod mic;
pub mod models;
pub mod overlay;
pub mod paste;
pub mod platform;
pub mod session;
pub mod settings;
pub mod text;
pub mod wav;
