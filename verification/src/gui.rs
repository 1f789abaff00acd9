//! The state of the user interface and its panels' actions.
use vstd::prelude::*;
use crate::parsers::owned;
use crate::text::{words, join_spaced, chars_of, split_whitespace, join_with_spaces, string_of};

verus! {

/// The tool the map view responds with.
#[derive(Clone, Copy, Debug, PartialEq, Eq, Structural)]
pub enum Tool {
    Pan,
    Measure,
    Select,
    RectangleZoom,
}

/// What the user interface shows and how; the zoom level and pan offset are
/// binary32 bit patterns.
pub struct GuiState {
    pub show_style_editor_modal: bool,
    pub show_tool_panel: bool,
    pub show_about: bool,
    pub show_layers_panel: bool,
    pub current_tool: Tool,
    pub zoom_level: u32,
    pub pan_offset: (u32, u32),
    pub selected_style: String,
    pub show_pois: bool,
    pub show_buildings: bool,
    pub show_roads: bool,
    pub show_all_road_names: bool,
    pub show_water: bool,
    pub show_landuse: bool,
    pub show_gpx: bool,
}

/// The actions of the toolbar.
#[derive(Clone, Copy, Debug, PartialEq, Eq, Structural)]
pub enum ToolbarAction {
    ZoomIn,
    ZoomOut,
    FitToWindow,
    ExportSvg,
    ExportPng,
    ExportPdf,
    /// No action was taken.
    NoAction,
}

/// The toolbar.
pub struct Toolbar;

/// The actions of the tool panel.
#[derive(Clone, Copy, Debug, PartialEq, Eq, Structural)]
pub enum ToolPanelAction {
    ZoomIn,
    ZoomOut,
    FitToWindow,
    ExportSvg,
    ExportPng,
    ExportPdf,
    /// No action was taken.
    NoAction,
}

/// The tool panel.
pub struct ToolPanel;

/// The layers panel.
pub struct LayersPanel {
    pub is_open: bool,
}

/// Whether every layer is shown (`true`) or hidden (`false`).
pub open spec fn layers_all(s: GuiState, shown: bool) -> bool {
    &&& s.show_buildings == shown
    &&& s.show_roads == shown
    &&& s.show_water == shown
    &&& s.show_landuse == shown
    &&& s.show_pois == shown
    &&& s.show_gpx == shown
    &&& s.show_all_road_names == shown
}

/// Everything but the layers is the same in both states.
pub open spec fn same_but_layers(a: GuiState, b: GuiState) -> bool {
    &&& a.show_style_editor_modal == b.show_style_editor_modal
    &&& a.show_tool_panel == b.show_tool_panel
    &&& a.show_about == b.show_about
    &&& a.show_layers_panel == b.show_layers_panel
    &&& a.current_tool == b.current_tool
    &&& a.zoom_level == b.zoom_level
    &&& a.pan_offset == b.pan_offset
    &&& a.selected_style@ == b.selected_style@
}

impl GuiState {
    /// The initial state: panning at zoom 1.0, Google-Maps style, every
    /// layer but GPX tracks shown, no dialog open.
    pub fn new() -> (s: Self)
        ensures
            !s.show_style_editor_modal && !s.show_tool_panel && !s.show_about
                && !s.show_layers_panel,
            s.current_tool == Tool::Pan,
            s.zoom_level == 0x3F80_0000,
            s.pan_offset == (0u32, 0u32),
            s.selected_style@ == "google-maps"@,
            s.show_pois && s.show_buildings && s.show_roads && s.show_water && s.show_landuse,
            !s.show_all_road_names && !s.show_gpx,
    {
        GuiState {
            show_style_editor_modal: false,
            show_tool_panel: false,
            show_about: false,
            show_layers_panel: false,
            current_tool: Tool::Pan,
            zoom_level: 0x3F80_0000u32,
            pan_offset: (0, 0),
            selected_style: owned("google-maps"),
            show_pois: true,
            show_buildings: true,
            show_roads: true,
            show_all_road_names: false,
            show_water: true,
            show_landuse: true,
            show_gpx: false,
        }
    }

    /// Shows every layer (the layers panel's "Show All").
    pub fn show_all_layers(&mut self)
        ensures
            layers_all(*final(self), true),
            same_but_layers(*final(self), *old(self)),
    {
        self.set_all_layers(true);
    }

    /// Hides every layer (the layers panel's "Hide All").
    pub fn hide_all_layers(&mut self)
        ensures
            layers_all(*final(self), false),
            same_but_layers(*final(self), *old(self)),
    {
        self.set_all_layers(false);
    }

    fn set_all_layers(&mut self, shown: bool)
        ensures
            layers_all(*final(self), shown),
            same_but_layers(*final(self), *old(self)),
    {
        self.show_buildings = shown;
        self.show_roads = shown;
        self.show_water = shown;
        self.show_landuse = shown;
        self.show_pois = shown;
        self.show_gpx = shown;
        self.show_all_road_names = shown;
    }
}

impl Toolbar {
    /// A toolbar.
    pub fn new() -> (t: Self) {
        Toolbar
    }
}

impl ToolPanel {
    /// A tool panel.
    pub fn new() -> (t: Self) {
        ToolPanel
    }
}

impl LayersPanel {
    /// A closed layers panel.
    pub fn new() -> (p: Self)
        ensures
            !p.is_open,
    {
        LayersPanel { is_open: false }
    }
}

impl Default for Toolbar {
    fn default() -> (t: Self) {
        Self::new()
    }
}

impl Default for ToolPanel {
    fn default() -> (t: Self) {
        Self::new()
    }
}

impl Default for LayersPanel {
    fn default() -> (p: Self)
        ensures
            !p.is_open,
    {
        Self::new()
    }
}


/// What `char::to_uppercase` gives for `c` (one or more characters).
pub uninterp spec fn char_upper(c: char) -> Seq<char>;

/// The upper case of `c`: `char::to_uppercase`, collected.
#[verifier::external_body]
fn upper_chars(c: char) -> (r: Vec<char>)
    ensures
        r@ == char_upper(c),
{
    c.to_uppercase().collect()
}

/// A word with its first character in upper case.
pub open spec fn capitalized(w: Seq<char>) -> Seq<char> {
    if w.len() == 0 {
        w
    } else {
        char_upper(w[0]) + w.drop_first()
    }
}

/// `-` and `_` read as spaces.
pub open spec fn dashes_as_spaces(s: Seq<char>) -> Seq<char> {
    s.map_values(|c: char| if c == '-' || c == '_' { ' ' } else { c })
}

/// The name shown for a style: fixed names for the two built-in styles, else
/// the words of the file name (split at whitespace, `-` and `_`), each
/// capitalized, joined by single spaces.
pub open spec fn style_display_name_of(name: Seq<char>) -> Seq<char> {
    if name == "google-maps"@ {
        "Google Maps"@
    } else if name == "osm-default"@ {
        "OSM Default"@
    } else {
        join_spaced(words(dashes_as_spaces(name)).map_values(|w: Seq<char>| capitalized(w)))
    }
}

fn name_is(s: &str, lit: &str) -> (b: bool)
    ensures
        b == (s@ == lit@),
{
    owned(s) == owned(lit)
}

/// The name the style menu shows for a style file name.
pub fn style_display_name(name: &str) -> (r: String)
    ensures
        r@ == style_display_name_of(name@),
{
    if name_is(name, "google-maps") {
        return owned("Google Maps");
    }
    if name_is(name, "osm-default") {
        return owned("OSM Default");
    }
    let cs = chars_of(name);
    let mut spaced: Vec<char> = Vec::new();
    let n = cs.len();
    for i in 0..n
        invariant
            n == cs@.len(),
            cs@ == name@,
            spaced@ == dashes_as_spaces(name@.take(i as int)),
    {
        let c = cs[i];
        spaced.push(if c == '-' || c == '_' { ' ' } else { c });
        assert(spaced@ =~= dashes_as_spaces(name@.take(i + 1)));
    }
    assert(name@.take(n as int) =~= name@);
    let parts = split_whitespace(spaced.as_slice());
    let ghost ws = words(dashes_as_spaces(name@));
    let mut caps: Vec<Vec<char>> = Vec::new();
    let m = parts.len();
    for j in 0..m
        invariant
            m == parts@.len(),
            parts.deep_view() == ws,
            caps@.len() == j,
            forall|t: int| 0 <= t < j ==> (#[trigger] caps@[t])@ == capitalized(ws[t]),
    {
        let w = &parts[j];
        assert(w@ == ws[j as int]);
        if w.len() == 0 {
            caps.push(Vec::new());
            assert(caps@[j as int]@ =~= capitalized(ws[j as int]));
        } else {
            let mut c = upper_chars(w[0]);
            let k = w.len();
            for t in 1..k
                invariant
                    k == w@.len(),
                    k > 0,
                    c@ == char_upper(w@[0]) + w@.subrange(1, t as int),
            {
                c.push(w[t]);
                assert(c@ =~= char_upper(w@[0]) + w@.subrange(1, t + 1));
            }
            assert(c@ =~= capitalized(w@));
            caps.push(c);
        }
    }
    proof {
        assert(caps.deep_view() =~= ws.map_values(|w: Seq<char>| capitalized(w))) by {
            assert forall|t: int| 0 <= t < caps@.len() implies caps.deep_view()[t] == capitalized(ws[t]) by {
                assert(caps.deep_view()[t] == caps@[t]@);
            }
        }
    }
    let joined = join_with_spaces(caps.as_slice());
    string_of(joined.as_slice())
}

} // verus!
