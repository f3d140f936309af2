//! ScreenInk takes a screenshot, lets the user draw on it, and hands it on as a PNG.
//!
//! This library decides; the program around it draws windows, talks to the desktop and touches
//! files.
//!
//! - [`picture`], [`raster`]: pixels, and painting strokes into them.
//! - [`editor`], [`outline`], [`ink`]: the annotations, what they look like, and the strokes that
//!   they become in the picture.
//! - [`arithmetic`]: the annotated picture as a function, and its laws.
//! - [`geometry`]: the size of the editor window.
//! - [`session`], [`saving`]: the long-lived service, its clipboard, and how a picture is saved.
//! - [`portal`], [`command`], [`config`]: the capture helper, the command line and the settings.
//! - [`paths`], [`naming`], [`text`], [`failure`], [`log`]: where files go, how they are named,
//!   what the user is told and what is logged.
//! - [`desktop`], [`selection`]: screenshots straight from an X11 server.
pub mod arithmetic;
pub mod command;
pub mod config;
pub mod desktop;
pub mod editor;
pub mod failure;
pub mod geometry;
pub mod ink;
pub mod log;
pub mod naming;
pub mod outline;
pub mod paths;
pub mod picture;
pub mod portal;
pub mod raster;
pub mod saving;
pub mod selection;
pub mod session;
pub mod text;
