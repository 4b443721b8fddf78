//! Core logic of the ComfyUI desktop front end.
use vstd::prelude::*;

pub mod a1111;
pub mod auth;
pub mod client;
pub mod clock;
pub mod config;
pub mod error;
pub mod gpu_manager;
pub mod jxl;
pub mod log_buffer;
pub mod media;
pub mod metadata;
pub mod model_requests;
pub mod nodes;
pub mod notifications;
pub mod png_meta;
pub mod process;
pub mod strmap;
pub mod swarm;
pub mod text;
pub mod types;
pub mod ws_events;
pub mod prompt_queue;
pub mod setup;
pub mod templates;
pub mod user_prefs;
pub mod uri;
pub mod interrogator;

verus! {

} // verus!
