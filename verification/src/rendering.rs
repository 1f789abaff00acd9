//! The style of a rendered element, as the renderer derives it from a
//! feature's render style. Widths, sizes and opacities are binary32 bit
//! patterns.
use vstd::prelude::*;
use crate::stylesheet::{Color, RenderStyle, opt_text};

verus! {

/// How one rendered element is drawn.
#[derive(Clone)]
pub struct ElementStyle {
    pub stroke_color: Option<Color>,
    pub fill_color: Option<Color>,
    pub stroke_width: u32,
    pub stroke_opacity: u32,
    pub fill_opacity: u32,
    pub stroke_dash: Vec<u32>,
    pub font_family: Option<String>,
    pub font_size: u32,
    pub font_weight: u32,
    pub point_radius: Option<u32>,
}

/// The binary32 bits of 1.0.
pub open spec fn f32_one() -> u32 {
    0x3F80_0000
}

/// The binary32 bits of 3.0.
pub open spec fn f32_three() -> u32 {
    0x4040_0000
}

impl ElementStyle {
    /// The element style of a render style: its colors, line width, font
    /// family and size; full opacity, no dashes, normal weight (400) and no
    /// point radius.
    pub fn from_render_style(style: &RenderStyle) -> (e: Self)
        ensures
            e.stroke_color == style.line_color,
            e.fill_color == style.fill_color,
            e.stroke_width == style.line_width,
            e.stroke_opacity == f32_one(),
            e.fill_opacity == f32_one(),
            e.stroke_dash@ == Seq::<u32>::empty(),
            opt_text(e.font_family) == opt_text(style.font_family),
            e.font_size == style.font_size,
            e.font_weight == 400,
            e.point_radius is None,
    {
        let font_family = match &style.font_family {
            Some(f) => Some(crate::parsers::owned(f.as_str())),
            None => None,
        };
        ElementStyle {
            stroke_color: style.line_color,
            fill_color: style.fill_color,
            stroke_width: style.line_width,
            stroke_opacity: 0x3F80_0000,
            fill_opacity: 0x3F80_0000,
            stroke_dash: Vec::new(),
            font_family,
            font_size: style.font_size,
            font_weight: 400,
            point_radius: None,
        }
    }
}

impl RenderStyle {
    /// The radius of points drawn in this style: always 3.0.
    pub fn point_radius(&self) -> (r: Option<u32>)
        ensures
            r == Some(f32_three()),
    {
        Some(0x4040_0000)
    }
}

} // verus!
