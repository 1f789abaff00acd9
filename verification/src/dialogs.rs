//! The file type filters of the open and save dialogs.
use vstd::prelude::*;

verus! {

/// Predefined file filters: a description and the file extensions it accepts.
pub struct FileFilters;

impl FileFilters {
    pub const OSM: (&'static str, &'static [&'static str; 2]) = ("OpenStreetMap files", &["osm", "osm.xml"]);
    pub const GPX: (&'static str, &'static [&'static str; 1]) = ("GPX files", &["gpx"]);
    pub const SVG: (&'static str, &'static [&'static str; 1]) = ("SVG files", &["svg"]);
    pub const PNG: (&'static str, &'static [&'static str; 1]) = ("PNG images", &["png"]);
    pub const JPEG: (&'static str, &'static [&'static str; 2]) = ("JPEG images", &["jpg", "jpeg"]);
    pub const PDF: (&'static str, &'static [&'static str; 1]) = ("PDF documents", &["pdf"]);
    pub const STYLESHEET: (&'static str, &'static [&'static str; 3]) = ("Style files", &["yaml", "yml", "mss"]);
}

} // verus!
