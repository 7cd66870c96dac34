//! Drives a pixel-matrix display from interchangeable renders.
//!
//! The crate holds the drawing surfaces (`canvas`, `render`), the layout of
//! several renders on one surface (`layout_manager`), the stores of render
//! factories and loaded renders (`registry`, `factory_registry`), the display's
//! hardware configuration (`config`, `forms`), the decisions of the frame
//! pipeline (`driver`) and the rules of the control surface (`http_server`).
//! Threads, channels, sockets and the hardware itself stay with the caller.

pub mod canvas;
pub mod config;
pub mod driver;
pub mod factory_list;
pub mod factory_registry;
pub mod forms;
pub mod geometry;
pub mod http_server;
pub mod layout_manager;
pub mod registry;
pub mod render;
pub mod text;
