//! Echo Scribe's logic: what the desktop application decides and computes, apart from the windows,
//! files, models and services that it works with.
//!
//! The library holds three layers.
//!
//! - Texts and data: [`text`], [`split`], [`search`], [`order`], [`numerals`], [`paths`],
//!   [`calendar`], [`json`] and [`ids`] say what the usual operations mean on sequences of
//!   characters, and prove functions on `str`, `String` and `Vec` to do it.
//! - Rules: [`binding`], [`trigger`], [`spoken`], [`action`], [`clipboard`], [`items`],
//!   [`projects`], [`activity`], [`chat`], [`sessions`], [`names`], [`exports`], [`recordings`],
//!   [`models`], [`meetings`], [`guides`], [`recap`], [`settings`], [`windows`], [`diagnostics`]
//!   and [`uninstall`].
//! - Procedures: work that alternates with the outside ([`finalize`], [`upload`], [`audio_jobs`],
//!   [`startup`], and the turns, pastes, probes and reviews of the modules above) stands here as a
//!   state with a current step. The caller does the step and hands back what came of it;
//!   `advance` says what is next. Proof functions named `law_..` say what holds of every run.
//!
//! What is taken from outside crates and from `std` without a specification is behind a few
//! functions whose doc comments say what is claimed of them: reading and writing JSON, lower case
//! and letters of all scripts, a list's debug text, a time's local date and fresh identifiers.
pub mod action;
pub mod activity;
pub mod audio_jobs;
pub mod binding;
pub mod calendar;
pub mod chat;
pub mod clipboard;
pub mod diagnostics;
pub mod exports;
pub mod finalize;
pub mod guides;
pub mod ids;
pub mod items;
pub mod json;
pub mod meetings;
pub mod models;
pub mod names;
pub mod numerals;
pub mod order;
pub mod paths;
pub mod projects;
pub mod recap;
pub mod recordings;
pub mod search;
pub mod sessions;
pub mod settings;
pub mod split;
pub mod spoken;
pub mod startup;
pub mod text;
pub mod trigger;
pub mod uninstall;
pub mod upload;
pub mod windows;
