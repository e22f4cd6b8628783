//! Core of a terminal HTTP console: the panel-focus state machine, the
//! request form parsers and encoders, and the response-body formatting,
//! highlighting and scrolling engine.

pub mod app;
pub mod encode;
pub mod format;
pub mod highlight;
pub mod html;
pub mod html_laws;
pub mod input;
pub mod keys;
pub mod keyvalue;
pub mod panel;
pub mod request;
pub mod response;
pub mod screen;
pub mod sections;
pub mod state;
pub mod text;
pub mod viewport;
