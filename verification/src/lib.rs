//! Renderer-agnostic core of the paper-doll rig and its editor: joint naming,
//! the skeleton topology, the animation data model and its validation, the
//! keyframe timeline, the playback clock that drives interruptible
//! transitions, the decisions behind rig commands and the HTTP API, the
//! editor session, the capability catalog, and the integer side of VRM and
//! VRMA files.

pub mod api;
pub mod bone_table;
pub mod catalog;
pub mod cli;
pub mod command;
pub mod doll;
pub mod editor;
pub mod hand;
pub mod idle;
pub mod json;
pub mod model;
pub mod named_map;
pub mod playback;
pub mod pose;
pub mod resolve;
pub mod session;
pub mod skeleton;
pub mod symmetry;
pub mod text;
pub mod timeline;
pub mod variant;
pub mod vrm;
pub mod vrma;
