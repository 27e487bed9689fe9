//! The decision logic of the sdroxide radio front end: what each panel shows,
//! what a click changes and which commands it sends, without any drawing.

pub mod app;
pub mod carried;
pub mod command;
pub mod decodes;
pub mod device_settings;
pub mod digi_map;
pub mod digi_panel;
pub mod frame;
pub mod hell;
pub mod layout;
pub mod log_list;
pub mod logbook;
pub mod mesh;
pub mod net;
pub mod overlay;
pub mod passes;
pub mod qso;
pub mod rade;
pub mod radio;
pub mod readouts;
pub mod rf_paint;
pub mod settings;
pub mod solar;
pub mod solar_layer;
pub mod sort;
pub mod spectrum;
pub mod spots;
pub mod sstv;
pub mod text;
pub mod utc;
pub mod view;
pub mod voice;
pub mod wefax;
pub mod zoom;
