//! Map data, styling and parsing for a map renderer.
pub mod floats;
pub mod text;
pub mod tags;
pub mod data;
pub mod xml;
pub mod parsers;
pub mod osm;
pub mod stylesheet;
pub mod styles;
pub mod gpx;
pub mod map_view;
pub mod export;
pub mod gui;
pub mod config;
pub mod map_style;
pub mod svg_layers;
pub mod rendering;
pub mod geocoding;
pub mod dialogs;
