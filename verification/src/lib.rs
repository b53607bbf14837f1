//! Core of an ALVR streaming client for the Pimax Crystal headset.
//!
//! The modules hold the client's rules as verified functions on plain values:
//! packet formats, stream reassembly, recovery and session state machines,
//! controller mapping, audio buffering and frame staging. Sockets, the Java
//! bridge and the graphics calls live in the application around this library.

pub mod audio;
pub mod config;
pub mod controller;
pub mod decoder;
pub mod diagnostics;
pub mod discovery;
pub mod float;
pub mod frames;
pub mod framing;
pub mod headset;
pub mod maintenance;
pub mod native;
pub mod packets;
pub mod page;
pub mod pattern;
pub mod protocol;
pub mod raster;
pub mod recovery;
pub mod scan;
pub mod service;
pub mod session;
pub mod settings;
pub mod staging;
pub mod statistics;
pub mod stream;
pub mod surface;
pub mod text;
pub mod tracking;
pub mod tune;
pub mod video;
pub mod views;
pub mod wire;
