//! A terminal-UI composition core: a flexbox-like layout engine, a render
//! pipeline, focus routing with modal override, and reusable editor and dialog
//! engines driven by thin component shims.

pub mod geometry;
pub mod pipeline;
pub mod style;
pub mod layout;
pub mod sizing;
pub mod input;
pub mod text;
pub mod editor;
pub mod focus;
pub mod dialog;
pub mod component;
pub mod render;
pub mod plan;
