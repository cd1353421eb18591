//! Writes a decompiled game back into the editable project format of its
//! authoring tool, in either of the format's two revisions: a zlib codec,
//! byte primitives, an ordered (optionally parallel) asset-list encoder, a
//! normalization pass (code-action repair and synthetic names), the
//! assembler that ties the sections of a file together, and the online
//! patch that can be applied to a game before it is written.
pub mod bytes;
pub mod zlib;
pub mod action;
pub mod asset;
pub mod console;
pub mod list;
pub mod game;
pub mod gmk;
pub mod names;
pub mod online;
pub mod online_patch;
pub mod patch;
pub mod repair;
pub mod sections;
pub mod tree;
