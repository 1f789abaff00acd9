//! Export settings and the rules that decide what can be exported.
use vstd::prelude::*;
use crate::data::Way;
use crate::floats::{f64_lt, f64_bits_lt};
use crate::parsers::owned;
use crate::stylesheet::Color;
use crate::tags::{Tags, tag_texts};

verus! {

/// The formats a map can be exported to.
#[derive(Clone, Copy, Debug, PartialEq, Eq, Structural)]
pub enum ExportFormat {
    Svg,
    Png,
    Jpeg,
    Pdf,
}

/// Export settings; `dpi` is a binary32 bit pattern.
pub struct ExportOptions {
    pub format: ExportFormat,
    pub output_path: String,
    pub width: u32,
    pub height: u32,
    pub dpi: u32,
    pub background_color: Option<Color>,
    pub quality: Option<u8>,
    pub compression: Option<u8>,
}

/// Why an export cannot go ahead.
pub enum ExportError {
    /// Width or height is zero.
    EmptySize,
    /// The resolution is not positive.
    InvalidDpi,
    /// The directory of the output path does not exist (as the path displays it).
    MissingDirectory(String),
    /// The format cannot be exported yet.
    Unsupported(ExportFormat),
}

/// Exports maps.
pub struct Exporter;

/// Exports raster images.
pub struct PngExporter;

/// The binary32 bit pattern of 300.0.
pub open spec fn dpi_300() -> u32 {
    0x4396_0000
}

/// A binary64 pattern that orders as the binary32 pattern `b`: same sign,
/// NaN-ness and magnitude order.
pub open spec fn f32_as_f64_order(b: u32) -> u64 {
    let sign = (b as u64 >> 31) & 1;
    let mag = (b & 0x7FFF_FFFF) as u64;
    if mag > 0x7F80_0000 {
        0x7FF8_0000_0000_0000u64 | (sign << 63)
    } else if mag == 0x7F80_0000 {
        0x7FF0_0000_0000_0000u64 | (sign << 63)
    } else {
        mag | (sign << 63)
    }
}

impl ExportOptions {
    /// Options for `format` to `output_path`: 1024 x 768, 300 dpi, no
    /// background, JPEG quality 90, PNG compression 6.
    pub fn new(format: ExportFormat, output_path: String) -> (o: Self)
        ensures
            o.format == format,
            o.output_path@ == output_path@,
            o.width == 1024,
            o.height == 768,
            o.dpi == dpi_300(),
            o.background_color is None,
            o.quality == Some(90u8),
            o.compression == Some(6u8),
    {
        ExportOptions {
            format,
            output_path,
            width: 1024,
            height: 768,
            dpi: 0x4396_0000u32,
            background_color: None,
            quality: Some(90),
            compression: Some(6),
        }
    }

    /// These options with the size `width` x `height`.
    pub fn with_size(self, width: u32, height: u32) -> (o: Self)
        ensures
            o == (ExportOptions { width, height, ..self }),
    {
        let mut s = self;
        s.width = width;
        s.height = height;
        s
    }

    /// These options with resolution `dpi` (a binary32 bit pattern).
    pub fn with_dpi(self, dpi: u32) -> (o: Self)
        ensures
            o == (ExportOptions { dpi, ..self }),
    {
        let mut s = self;
        s.dpi = dpi;
        s
    }

    /// These options with background `color`.
    pub fn with_background(self, color: Color) -> (o: Self)
        ensures
            o == (ExportOptions { background_color: Some(color), ..self }),
    {
        let mut s = self;
        s.background_color = Some(color);
        s
    }

    /// These options with JPEG quality `quality`.
    pub fn with_quality(self, quality: u8) -> (o: Self)
        ensures
            o == (ExportOptions { quality: Some(quality), ..self }),
    {
        let mut s = self;
        s.quality = Some(quality);
        s
    }
}

/// `dpi <= 0.0` for a binary32 bit pattern: false for NaN.
pub open spec fn dpi_not_positive(dpi: u32) -> bool {
    let d = f32_as_f64_order(dpi);
    !(d & 0x7FFF_FFFF_FFFF_FFFF > 0x7FF0_0000_0000_0000) && !f64_lt(0, d)
}

/// The checks an export makes before it starts, in order: a non-empty size,
/// a positive resolution, and an existing output directory. `parent` is the
/// output path's directory, if it has one, as it displays, and whether it exists.
pub open spec fn options_check(o: ExportOptions, parent: Option<(Seq<char>, bool)>) -> Result<
    (),
    ExportErrorView,
> {
    if o.width == 0 || o.height == 0 {
        Err(ExportErrorView::EmptySize)
    } else if dpi_not_positive(o.dpi) {
        Err(ExportErrorView::InvalidDpi)
    } else {
        match parent {
            Some((p, exists)) => if !exists {
                Err(ExportErrorView::MissingDirectory(p))
            } else {
                Ok(())
            },
            None => Ok(()),
        }
    }
}

/// An `ExportError` as plain values.
pub enum ExportErrorView {
    EmptySize,
    InvalidDpi,
    MissingDirectory(Seq<char>),
    Unsupported(ExportFormat),
}

impl View for ExportError {
    type V = ExportErrorView;

    open spec fn view(&self) -> ExportErrorView {
        match self {
            ExportError::EmptySize => ExportErrorView::EmptySize,
            ExportError::InvalidDpi => ExportErrorView::InvalidDpi,
            ExportError::MissingDirectory(p) => ExportErrorView::MissingDirectory(p@),
            ExportError::Unsupported(f) => ExportErrorView::Unsupported(*f),
        }
    }
}

/// The file extension of each format.
pub open spec fn extension(format: ExportFormat) -> Seq<char> {
    match format {
        ExportFormat::Svg => "svg"@,
        ExportFormat::Png => "png"@,
        ExportFormat::Jpeg => "jpg"@,
        ExportFormat::Pdf => "pdf"@,
    }
}

impl Exporter {
    /// An exporter.
    pub fn new() -> (e: Self) {
        Exporter
    }

    /// The file extension of `format`.
    pub fn get_extension(format: ExportFormat) -> (s: &'static str)
        ensures
            s@ == extension(format),
    {
        match format {
            ExportFormat::Svg => "svg",
            ExportFormat::Png => "png",
            ExportFormat::Jpeg => "jpg",
            ExportFormat::Pdf => "pdf",
        }
    }

    /// Checks options before an export (see `options_check`).
    pub fn validate_options(&self, options: &ExportOptions, parent: Option<(String, bool)>) -> (r:
        Result<(), ExportError>)
        ensures
            match options_check(
                *options,
                match parent {
                    Some((p, e)) => Some((p@, e)),
                    None => None,
                },
            ) {
                Ok(()) => r is Ok,
                Err(e) => r is Err && r->Err_0@ == e,
            },
    {
        if options.width == 0 || options.height == 0 {
            return Err(ExportError::EmptySize);
        }
        if dpi_is_not_positive(options.dpi) {
            return Err(ExportError::InvalidDpi);
        }
        match parent {
            Some((p, exists)) => if !exists {
                Err(ExportError::MissingDirectory(p))
            } else {
                Ok(())
            },
            None => Ok(()),
        }
    }

    /// Whether `format` can be exported: only SVG can.
    pub fn format_support(format: ExportFormat) -> (r: Result<(), ExportError>)
        ensures
            format == ExportFormat::Svg ==> r is Ok,
            format != ExportFormat::Svg ==> r is Err && r->Err_0@ == ExportErrorView::Unsupported(format),
    {
        match format {
            ExportFormat::Svg => Ok(()),
            _ => Err(ExportError::Unsupported(format)),
        }
    }
}

/// `dpi <= 0.0` for a binary32 bit pattern.
fn dpi_is_not_positive(dpi: u32) -> (b: bool)
    ensures
        b == dpi_not_positive(dpi),
{
    let sign: u64 = (dpi as u64 >> 31) & 1;
    let mag: u64 = (dpi & 0x7FFF_FFFF) as u64;
    let d: u64 = if mag > 0x7F80_0000 {
        0x7FF8_0000_0000_0000u64 | (sign << 63)
    } else if mag == 0x7F80_0000 {
        0x7FF0_0000_0000_0000u64 | (sign << 63)
    } else {
        mag | (sign << 63)
    };
    !(d & 0x7FFF_FFFF_FFFF_FFFF > 0x7FF0_0000_0000_0000) && !f64_bits_lt(0, d)
}

impl PngExporter {
    /// A raster exporter.
    pub fn new() -> (e: Self) {
        PngExporter
    }
}

impl Default for Exporter {
    fn default() -> (e: Self) {
        Self::new()
    }
}

impl Default for PngExporter {
    fn default() -> (e: Self) {
        Self::new()
    }
}

/// The tag value of `key`, as text.
pub open spec fn tag_of(t: Tags, key: Seq<char>) -> Option<Seq<char>> {
    if tag_texts(t@).dom().contains(key) {
        Some(tag_texts(t@)[key])
    } else {
        None
    }
}

/// Whether a way is water: natural water or coastline, or, when it has no
/// natural tag, a waterway.
pub open spec fn water_feature(w: Way) -> bool {
    match tag_of(w.tags, "natural"@) {
        Some(n) => n == "water"@ || n == "coastline"@,
        None => tag_texts(w.tags@).dom().contains("waterway"@),
    }
}

/// The amenities whose points are emphasized.
pub open spec fn important_poi(amenity: Seq<char>) -> bool {
    amenity == "hospital"@ || amenity == "school"@ || amenity == "university"@ || amenity
        == "police"@ || amenity == "fire_station"@
}

/// The road classes that are labeled.
pub open spec fn labeled_road(h: Seq<char>) -> bool {
    ||| h == "motorway"@
    ||| h == "trunk"@
    ||| h == "primary"@
    ||| h == "secondary"@
    ||| h == "tertiary"@
    ||| h == "motorway_link"@
    ||| h == "trunk_link"@
    ||| h == "primary_link"@
    ||| h == "secondary_link"@
    ||| h == "residential"@
    ||| h == "unclassified"@
    ||| h == "service"@
}

fn str_is(s: &str, lit: &str) -> (b: bool)
    ensures
        b == (s@ == lit@),
{
    owned(s) == owned(lit)
}

/// Whether a way is drawn as water.
pub fn is_water_feature(way: &Way) -> (b: bool)
    ensures
        b == water_feature(*way),
{
    match way.tags.get("natural") {
        Some(n) => str_is(n.as_str(), "water") || str_is(n.as_str(), "coastline"),
        None => way.tags.contains_key("waterway"),
    }
}

/// Whether points of this amenity are emphasized.
pub fn is_important_poi(amenity: &str) -> (b: bool)
    ensures
        b == important_poi(amenity@),
{
    str_is(amenity, "hospital") || str_is(amenity, "school") || str_is(amenity, "university")
        || str_is(amenity, "police") || str_is(amenity, "fire_station")
}

/// Whether roads of this class get a name label.
pub fn should_label_road(highway: &str) -> (b: bool)
    ensures
        b == labeled_road(highway@),
{
    str_is(highway, "motorway") || str_is(highway, "trunk") || str_is(highway, "primary")
        || str_is(highway, "secondary") || str_is(highway, "tertiary") || str_is(
        highway,
        "motorway_link",
    ) || str_is(highway, "trunk_link") || str_is(highway, "primary_link") || str_is(
        highway,
        "secondary_link",
    ) || str_is(highway, "residential") || str_is(highway, "unclassified") || str_is(
        highway,
        "service",
    )
}

/// The road classes whose ways get a name label are exactly motorway,
/// trunk, primary, secondary and tertiary, the link roads of the first four
/// (not `tertiary_link`), residential and unclassified streets, and service
/// roads.
pub proof fn law_labeled_road_classes(h: Seq<char>)
    ensures
        labeled_road(h) <==> (h == "motorway"@ || h == "trunk"@ || h == "primary"@ || h
            == "secondary"@ || h == "tertiary"@ || h == "motorway_link"@ || h == "trunk_link"@ || h
            == "primary_link"@ || h == "secondary_link"@ || h == "residential"@ || h
            == "unclassified"@ || h == "service"@),
{
}

/// The amenities whose points are emphasized with their name are exactly
/// hospitals, schools, universities, police and fire stations.
pub proof fn law_important_pois(a: Seq<char>)
    ensures
        important_poi(a) <==> (a == "hospital"@ || a == "school"@ || a == "university"@ || a
            == "police"@ || a == "fire_station"@),
{
}

/// A way is drawn as water exactly when its `natural` tag is `water` or
/// `coastline`, or when it has no `natural` tag but a `waterway` tag.
pub proof fn law_water_ways(w: Way)
    ensures
        water_feature(w) <==> match tag_of(w.tags, "natural"@) {
            Some(n) => n == "water"@ || n == "coastline"@,
            None => tag_texts(w.tags@).dom().contains("waterway"@),
        },
{
}

} // verus!
