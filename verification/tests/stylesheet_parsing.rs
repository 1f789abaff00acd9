use mapscow_mule::parsers::ParseError;
use mapscow_mule::stylesheet::{Color, DrawMode, FeatureSelector, StyleVariable, StylesheetParser};

fn f32_bits(s: &str) -> Option<u32> {
    s.parse::<f32>().ok().map(f32::to_bits)
}

fn color(s: &str) -> Result<Color, ParseError> {
    StylesheetParser::new().parse_color(s, &f32_bits)
}

#[test]
fn color_hex_forms() {
    assert_eq!(color("#4A90E2").ok().unwrap(), Color::new(74, 144, 226, 255));
    assert_eq!(color("  #ff000080 ").ok().unwrap(), Color::new(255, 0, 0, 128));
    assert_eq!(color("#+1+2+3").ok().unwrap(), Color::new(1, 2, 3, 255));
}

#[test]
fn color_bad_hex_digit() {
    match color("#GG0000") {
        Err(ParseError::InvalidInteger(p)) => assert_eq!(p, "GG"),
        _ => panic!("expected an invalid digit"),
    }
}

#[test]
fn color_rgb_and_rgba() {
    assert_eq!(color("rgb(10, 20, 30)").ok().unwrap(), Color::new(10, 20, 30, 255));
    assert_eq!(color("rgba(10,20,30,0.5)").ok().unwrap(), Color::new(10, 20, 30, 127));
    assert_eq!(color("rgba(1,2,3,1.0)").ok().unwrap(), Color::new(1, 2, 3, 255));
    match color("rgba(1,2,3,half)") {
        Err(ParseError::InvalidFloat(t)) => assert_eq!(t, "half"),
        _ => panic!("expected an invalid float"),
    }
    match color("rgb(300,2,3)") {
        Err(ParseError::InvalidInteger(t)) => assert_eq!(t, "300"),
        _ => panic!("expected an invalid integer"),
    }
}

#[test]
fn color_names() {
    assert_eq!(color("RED").ok().unwrap(), Color::new(255, 0, 0, 255));
    assert_eq!(color("Transparent").ok().unwrap(), Color::new(0, 0, 0, 0));
    match color(" mauve ") {
        Err(ParseError::InvalidFormat(m)) => assert_eq!(m, "Unknown color: mauve"),
        _ => panic!("expected an unknown color"),
    }
    match color("#12345") {
        Err(ParseError::InvalidFormat(m)) => assert_eq!(m, "Unknown color: #12345"),
        _ => panic!("expected an unknown color"),
    }
}

#[test]
fn color_hex_round_trip() {
    for c in [Color::new(0, 0, 0, 0), Color::new(255, 254, 16, 15), Color::new(74, 144, 226, 255)] {
        assert_eq!(color(&c.to_hex()).ok().unwrap(), c);
    }
    assert_eq!(Color::new(10, 171, 255, 0).to_hex(), "#0AABFF00");
}

#[test]
fn alpha_matches_float_multiplication() {
    for a in [0.0f32, 0.1, 0.25, 0.333, 0.5, 0.75, 0.999, 1.0, 1.5, 2.0, -0.5, f32::NAN, 1e-30] {
        let text = format!("rgba(0,0,0,{})", a);
        let expected = (a * 255.0) as u8;
        assert_eq!(color(&text).ok().unwrap().a, expected, "alpha {}", a);
    }
}

const SHEET: &str = "// a comment
# another comment
define water-color #4A90E2
define title Big Map Title

features natural=water waterway
  draw: fill
  fill-color: water
  line-width: 2.5
  font-size: oops
features highway=primary
  draw: both
  line-color: rgba(255, 0, 0, 0.5)
  text: name
  min-zoom: 12
  max-zoom: lots
  font-family: Verdana
";

#[test]
fn custom_format_rules_and_variables() {
    let p = StylesheetParser::new();
    let sheet = p.parse_custom_format("define c red\nfeatures a=b\n draw: point\n", &f32_bits).ok().unwrap();
    assert_eq!(sheet.rules.len(), 1);
    assert_eq!(sheet.rules[0].style.draw_mode, DrawMode::Point);
    match sheet.variables.get("c") {
        Some(StyleVariable::Color(c)) => assert_eq!(*c, Color::new(255, 0, 0, 255)),
        _ => panic!("expected a color variable"),
    }
}

#[test]
fn custom_format_sample_sheet() {
    let p = StylesheetParser::new();
    let r = p.parse_custom_format(SHEET, &f32_bits);
    // "fill-color: water" is not a color: the whole parse fails.
    match r {
        Err(ParseError::InvalidFormat(m)) => assert_eq!(m, "Unknown color: water"),
        _ => panic!("expected an unknown color"),
    }
    let fixed = SHEET.replace("fill-color: water", "fill-color: #4A90E2");
    let sheet = p.parse_custom_format(&fixed, &f32_bits).ok().unwrap();
    assert_eq!(sheet.rules.len(), 2);
    let r0 = &sheet.rules[0];
    assert_eq!(r0.selectors.len(), 2);
    match &r0.selectors[0] {
        FeatureSelector::Tag { key, value } => {
            assert_eq!(key, "natural");
            assert_eq!(value.as_deref(), Some("water"));
        }
        _ => panic!("expected a tag selector"),
    }
    match &r0.selectors[1] {
        FeatureSelector::Tag { key, value } => {
            assert_eq!(key, "waterway");
            assert!(value.is_none());
        }
        _ => panic!("expected a tag selector"),
    }
    assert_eq!(r0.style.draw_mode, DrawMode::Fill);
    assert_eq!(r0.style.fill_color, Some(Color::new(74, 144, 226, 255)));
    assert_eq!(r0.style.line_width, 2.5f32.to_bits());
    assert_eq!(r0.style.font_size, 12.0f32.to_bits());
    let r1 = &sheet.rules[1];
    assert_eq!(r1.style.draw_mode, DrawMode::Both);
    assert_eq!(r1.style.line_color, Some(Color::new(255, 0, 0, 127)));
    assert_eq!(r1.style.text_field.as_deref(), Some("name"));
    assert_eq!(r1.style.min_zoom, Some(12));
    assert_eq!(r1.style.max_zoom, Some(18));
    assert_eq!(r1.style.font_family.as_deref(), Some("Verdana"));
    match sheet.variables.get("title") {
        Some(StyleVariable::String(s)) => assert_eq!(s, "Big Map Title"),
        _ => panic!("expected a text variable"),
    }
    assert_eq!(sheet.variables.len(), 2);
}

#[test]
fn custom_format_invalid_features_line() {
    let p = StylesheetParser::new();
    match p.parse_custom_format("features\n", &f32_bits) {
        Err(ParseError::InvalidFormat(m)) => assert_eq!(m, "Invalid features line"),
        _ => panic!("expected an invalid features line"),
    }
}

#[test]
fn custom_format_properties_before_rule_are_ignored() {
    let p = StylesheetParser::new();
    let sheet = p.parse_custom_format("draw: fill\nline-color: nonsense\n", &f32_bits).ok().unwrap();
    assert!(sheet.rules.is_empty());
}

#[test]
fn default_render_style() {
    let s = mapscow_mule::stylesheet::RenderStyle::default();
    assert_eq!(s.draw_mode, DrawMode::Line);
    assert_eq!(s.line_color, Some(Color::new(0, 0, 0, 255)));
    assert_eq!(s.line_width, 1.0f32.to_bits());
    assert_eq!(s.font_size, 12.0f32.to_bits());
    assert_eq!(s.font_family.as_deref(), Some("Arial"));
}

#[test]
fn parse_string_prefers_yaml_result() {
    let p = StylesheetParser::new();
    let yaml = p.parse_custom_format("features a\n", &f32_bits).ok().unwrap();
    let got = p.parse_string("features b c\n", Some(yaml), &f32_bits).ok().unwrap();
    assert_eq!(got.rules[0].selectors.len(), 1);
    let got = p.parse_string("features b c\n", None, &f32_bits).ok().unwrap();
    assert_eq!(got.rules[0].selectors.len(), 2);
}
