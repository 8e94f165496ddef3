//! Presentation logic of Pinpoint, a plain-text presentation tool: command
//! line handling, slide navigation and transitions, asset budgeting, SVG
//! preflight checks and the text shown to presenters.
use vstd::prelude::*;

pub mod accessibility;
pub mod asset_store;
pub mod camera;
pub mod check;
pub mod cli;
pub mod cli_laws;
pub mod cli_switches;
pub mod command_runner;
pub mod curl_textures;
pub mod deck;
pub mod editor;
pub mod export;
pub mod keys;
pub mod lifecycle;
pub mod media;
pub mod memory;
pub mod menu;
pub mod modes;
pub mod mpris;
pub mod navigation;
pub mod page_curl;
pub mod paths;
pub mod pdf;
pub mod pixels;
pub mod problems;
pub mod renderer_policy;
pub mod setup;
pub mod speaker;
pub mod stage;
pub mod svg;
pub mod text;
pub mod texture_cache;
pub mod transition;
pub mod working_set;

verus! {

} // verus!
