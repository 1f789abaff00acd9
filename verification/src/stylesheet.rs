//! Stylesheets: colors, feature selectors, render styles and rules, and the
//! parser of the Maperitive-style text format.
use vstd::prelude::*;
use crate::floats::{f32_times_255_byte, f32_times_255_to_byte};
use crate::parsers::{ParseError, ParseErrorView, same_result, owned};
use crate::tags::StrMap;
use crate::text::{
    trim, trim_start, trim_end, is_ws, digit_value, digits_value, has_prefix, words, split_once, join_spaced, parse_u32_spec, split_whitespace,
    split_once_char, join_with_spaces, parse_u32_dec, chars_eq, strip_prefixes, strip_suffix_chars, split_on, parse_u8_spec, chars_of,
    string_of, trim_chars, starts_with, strip_prefixes_of, strip_suffix_chars_of, split_chars,
    parse_u8_radix, copy_range, lemma_deep_view_chars,
};

verus! {

/// A color with 8-bit channels.
#[derive(Clone, Copy, Debug, PartialEq, Eq, Structural)]
pub struct Color {
    pub r: u8,
    pub g: u8,
    pub b: u8,
    pub a: u8,
}

/// How a feature is drawn.
#[derive(Clone, Copy, Debug, PartialEq, Eq, Structural)]
pub enum DrawMode {
    Line,
    Fill,
    Both,
    Point,
    Text,
}

/// The kind of element a selector can name.
#[derive(Clone, Copy, Debug, PartialEq, Eq, Structural)]
pub enum ElementType {
    Node,
    Way,
    Relation,
}

/// A selector that matches map elements.
#[derive(Clone)]
pub enum FeatureSelector {
    /// Elements with tag `key`, and, if given, with that tag equal to `value`.
    Tag { key: String, value: Option<String> },
    ElementType(ElementType),
    ZoomRange { min: Option<u32>, max: Option<u32> },
}

/// Rendering properties; widths and sizes are binary32 bit patterns.
#[derive(Clone)]
pub struct RenderStyle {
    pub draw_mode: DrawMode,
    pub line_color: Option<Color>,
    pub fill_color: Option<Color>,
    pub line_width: u32,
    pub font_family: Option<String>,
    pub font_size: u32,
    pub text_field: Option<String>,
    pub min_zoom: Option<u32>,
    pub max_zoom: Option<u32>,
}

/// A rule: the selectors it applies to and the style it gives.
#[derive(Clone)]
pub struct StyleRule {
    pub selectors: Vec<FeatureSelector>,
    pub style: RenderStyle,
}

/// A value defined in a stylesheet.
#[derive(Clone)]
pub enum StyleVariable {
    Color(Color),
    /// A binary64 bit pattern.
    Number(u64),
    String(String),
}

/// A stylesheet: rules in order and named variables.
#[derive(Clone)]
pub struct StyleSheet {
    pub rules: Vec<StyleRule>,
    pub variables: StrMap<StyleVariable>,
}

/// The parser of stylesheets.
pub struct StylesheetParser;

// ---------------------------------------------------------------------------
// Views
// ---------------------------------------------------------------------------

pub enum SelectorView {
    Tag { key: Seq<char>, value: Option<Seq<char>> },
    ElementType(ElementType),
    ZoomRange { min: Option<u32>, max: Option<u32> },
}

pub struct StyleView {
    pub draw_mode: DrawMode,
    pub line_color: Option<Color>,
    pub fill_color: Option<Color>,
    pub line_width: u32,
    pub font_family: Option<Seq<char>>,
    pub font_size: u32,
    pub text_field: Option<Seq<char>>,
    pub min_zoom: Option<u32>,
    pub max_zoom: Option<u32>,
}

pub struct RuleView {
    pub selectors: Seq<SelectorView>,
    pub style: StyleView,
}

pub enum VariableView {
    Color(Color),
    Number(u64),
    String(Seq<char>),
}

pub struct SheetView {
    pub rules: Seq<RuleView>,
    pub variables: Map<Seq<char>, VariableView>,
}

/// The text of an optional string.
pub open spec fn opt_text(s: Option<String>) -> Option<Seq<char>> {
    match s {
        Some(t) => Some(t@),
        None => None,
    }
}

impl View for FeatureSelector {
    type V = SelectorView;

    open spec fn view(&self) -> SelectorView {
        match self {
            FeatureSelector::Tag { key, value } => SelectorView::Tag {
                key: key@,
                value: opt_text(*value),
            },
            FeatureSelector::ElementType(t) => SelectorView::ElementType(*t),
            FeatureSelector::ZoomRange { min, max } => SelectorView::ZoomRange { min: *min, max: *max },
        }
    }
}

impl View for RenderStyle {
    type V = StyleView;

    open spec fn view(&self) -> StyleView {
        StyleView {
            draw_mode: self.draw_mode,
            line_color: self.line_color,
            fill_color: self.fill_color,
            line_width: self.line_width,
            font_family: opt_text(self.font_family),
            font_size: self.font_size,
            text_field: opt_text(self.text_field),
            min_zoom: self.min_zoom,
            max_zoom: self.max_zoom,
        }
    }
}

/// The views of a list of selectors.
pub open spec fn selector_views(s: Seq<FeatureSelector>) -> Seq<SelectorView> {
    s.map_values(|x: FeatureSelector| x@)
}

impl View for StyleRule {
    type V = RuleView;

    open spec fn view(&self) -> RuleView {
        RuleView { selectors: selector_views(self.selectors@), style: self.style@ }
    }
}

impl View for StyleVariable {
    type V = VariableView;

    open spec fn view(&self) -> VariableView {
        match self {
            StyleVariable::Color(c) => VariableView::Color(*c),
            StyleVariable::Number(n) => VariableView::Number(*n),
            StyleVariable::String(s) => VariableView::String(s@),
        }
    }
}

/// The views of a list of rules.
pub open spec fn rule_views(s: Seq<StyleRule>) -> Seq<RuleView> {
    s.map_values(|x: StyleRule| x@)
}

impl View for StyleSheet {
    type V = SheetView;

    open spec fn view(&self) -> SheetView {
        SheetView {
            rules: rule_views(self.rules@),
            variables: self.variables@.map_values(|v: StyleVariable| v@),
        }
    }
}

// ---------------------------------------------------------------------------
// Colors
// ---------------------------------------------------------------------------

/// The uppercase hexadecimal digit of `d` (below 16).
pub open spec fn hex_digit(d: nat) -> char {
    if d < 10 {
        ((d + 48) as u8) as char
    } else {
        ((d + 55) as u8) as char
    }
}

/// Two uppercase hexadecimal digits of `b` (`{:02X}`).
pub open spec fn hex2(b: u8) -> Seq<char> {
    seq![hex_digit((b / 16) as nat), hex_digit((b % 16) as nat)]
}

/// `#RRGGBBAA` in uppercase hexadecimal.
pub open spec fn hex_text(c: Color) -> Seq<char> {
    seq!['#'] + hex2(c.r) + hex2(c.g) + hex2(c.b) + hex2(c.a)
}

fn hex_digit_char(d: u8) -> (c: char)
    requires
        d < 16,
    ensures
        c == hex_digit(d as nat),
{
    if d < 10 {
        ((d + 48) as u8) as char
    } else {
        ((d + 55) as u8) as char
    }
}

impl Color {
    /// The color with channels `r`, `g`, `b` and alpha `a`.
    pub fn new(r: u8, g: u8, b: u8, a: u8) -> (c: Self)
        ensures
            c == (Color { r, g, b, a }),
    {
        Color { r, g, b, a }
    }

    /// The color as `#RRGGBBAA`, uppercase.
    pub fn to_hex(&self) -> (s: String)
        ensures
            s@ == hex_text(*self),
    {
        let mut v: Vec<char> = Vec::new();
        v.push('#');
        v.push(hex_digit_char(self.r / 16));
        v.push(hex_digit_char(self.r % 16));
        v.push(hex_digit_char(self.g / 16));
        v.push(hex_digit_char(self.g % 16));
        v.push(hex_digit_char(self.b / 16));
        v.push(hex_digit_char(self.b % 16));
        v.push(hex_digit_char(self.a / 16));
        v.push(hex_digit_char(self.a % 16));
        assert(v@ =~= hex_text(*self));
        string_of(v.as_slice())
    }
}

/// The number of bytes of `c` in UTF-8.
pub open spec fn utf8_width(c: char) -> nat {
    if (c as u32) < 0x80 {
        1
    } else if (c as u32) < 0x800 {
        2
    } else if (c as u32) < 0x10000 {
        3
    } else {
        4
    }
}

/// The number of bytes of `s` in UTF-8 (`str::len`).
pub open spec fn utf8_len(s: Seq<char>) -> nat
    decreases s.len(),
{
    if s.len() == 0 {
        0
    } else {
        utf8_len(s.drop_last()) + utf8_width(s.last())
    }
}

/// The number of characters that take up the first `k` bytes of `s`, if
/// byte `k` starts a character or ends the text (`str::is_char_boundary`).
pub open spec fn char_index_of_byte(s: Seq<char>, k: nat) -> Option<nat>
    decreases s.len(),
{
    if utf8_len(s) == k {
        Some(s.len())
    } else if s.len() == 0 {
        None
    } else {
        char_index_of_byte(s.drop_last(), k)
    }
}

/// Whether the byte offsets `2, 4, ..` below `2 * pieces` all fall between
/// characters of `hex`, so that slicing it into two-byte pieces does not panic.
pub open spec fn hex_slices_ok(hex: Seq<char>, pieces: nat) -> bool {
    forall|i: nat| 1 <= i < pieces ==> (#[trigger] char_index_of_byte(hex, 2 * i)) is Some
}

/// Whether parsing `color_str` slices it without panicking: a `#` color
/// whose digits take 6 or 8 bytes has them on character boundaries every two bytes.
pub open spec fn color_slices_ok(color_str: Seq<char>) -> bool {
    let s = trim(color_str);
    s.len() > 0 && s[0] == '#' ==> {
        let hex = s.drop_first();
        (utf8_len(hex) == 6 ==> hex_slices_ok(hex, 3)) && (utf8_len(hex) == 8 ==> hex_slices_ok(
            hex,
            4,
        ))
    }
}

/// The `i`-th two-byte piece of `hex`.
pub open spec fn hex_piece(hex: Seq<char>, i: nat) -> Seq<char> {
    let a = match char_index_of_byte(hex, 2 * i) {
        Some(j) => j,
        None => 0,
    };
    let b = match char_index_of_byte(hex, 2 * i + 2) {
        Some(j) => j,
        None => 0,
    };
    hex.subrange(a as int, b as int)
}

/// A channel read with `u8::from_str_radix(piece, radix)`.
pub open spec fn channel(piece: Seq<char>, radix: nat) -> Result<u8, ParseErrorView> {
    match parse_u8_spec(piece, radix) {
        Some(v) => Ok(v),
        None => Err(ParseErrorView::InvalidInteger(piece)),
    }
}

/// The colors of the hexadecimal form, when it applies.
pub open spec fn hex_color(s: Seq<char>) -> Option<Result<Color, ParseErrorView>> {
    if s.len() > 0 && s[0] == '#' {
        let hex = s.drop_first();
        if utf8_len(hex) == 6 || utf8_len(hex) == 8 {
            Some(
                match channel(hex_piece(hex, 0), 16) {
                    Err(e) => Err(e),
                    Ok(r) => match channel(hex_piece(hex, 1), 16) {
                        Err(e) => Err(e),
                        Ok(g) => match channel(hex_piece(hex, 2), 16) {
                            Err(e) => Err(e),
                            Ok(b) => if utf8_len(hex) == 6 {
                                Ok(Color { r, g, b, a: 255 })
                            } else {
                                match channel(hex_piece(hex, 3), 16) {
                                    Err(e) => Err(e),
                                    Ok(a) => Ok(Color { r, g, b, a }),
                                }
                            },
                        },
                    },
                },
            )
        } else {
            None
        }
    } else {
        None
    }
}

/// The comma-separated parts inside `rgb(...)` or `rgba(...)`, when the
/// functional form applies.
pub open spec fn rgb_parts(s: Seq<char>) -> Option<Seq<Seq<char>>> {
    if has_prefix(s, "rgb("@) || has_prefix(s, "rgba("@) {
        let inner = strip_suffix_chars(strip_prefixes(strip_prefixes(s, "rgb("@), "rgba("@), ')');
        let parts = split_on(inner, ',');
        if parts.len() >= 3 {
            Some(parts)
        } else {
            None
        }
    } else {
        None
    }
}

/// The text of a color that is decoded as an `f32`: the trimmed fourth part
/// of `rgba(...)`.
pub open spec fn alpha_text(color_str: Seq<char>) -> Option<Seq<char>> {
    let s = trim(color_str);
    if hex_color(s) is Some {
        None
    } else {
        match rgb_parts(s) {
            Some(parts) => if parts.len() > 3 {
                Some(trim(parts[3]))
            } else {
                None
            },
            None => None,
        }
    }
}

/// The color of the functional form, given how the alpha text decoded.
pub open spec fn rgb_color(parts: Seq<Seq<char>>, alpha: Option<u32>) -> Result<Color, ParseErrorView> {
    match channel(trim(parts[0]), 10) {
        Err(e) => Err(e),
        Ok(r) => match channel(trim(parts[1]), 10) {
            Err(e) => Err(e),
            Ok(g) => match channel(trim(parts[2]), 10) {
                Err(e) => Err(e),
                Ok(b) => if parts.len() > 3 {
                    match alpha {
                        Some(bits) => Ok(Color { r, g, b, a: f32_times_255_byte(bits) }),
                        None => Err(ParseErrorView::InvalidFloat(trim(parts[3]))),
                    }
                } else {
                    Ok(Color { r, g, b, a: 255 })
                },
            },
        },
    }
}

/// `str::to_lowercase`: the Unicode lowercase mapping of a text.
pub uninterp spec fn lowercase(s: Seq<char>) -> Seq<char>;

/// The named colors.
pub open spec fn named_color(s: Seq<char>) -> Result<Color, ParseErrorView> {
    let l = lowercase(s);
    if l == "red"@ {
        Ok(Color { r: 255, g: 0, b: 0, a: 255 })
    } else if l == "green"@ {
        Ok(Color { r: 0, g: 255, b: 0, a: 255 })
    } else if l == "blue"@ {
        Ok(Color { r: 0, g: 0, b: 255, a: 255 })
    } else if l == "white"@ {
        Ok(Color { r: 255, g: 255, b: 255, a: 255 })
    } else if l == "black"@ {
        Ok(Color { r: 0, g: 0, b: 0, a: 255 })
    } else if l == "transparent"@ {
        Ok(Color { r: 0, g: 0, b: 0, a: 0 })
    } else {
        Err(ParseErrorView::InvalidFormat("Unknown color: "@ + s))
    }
}

/// What `parse_color` gives for `color_str`, given how its alpha text decoded:
/// the hexadecimal form, else the functional form, else a named color.
pub open spec fn color_of(color_str: Seq<char>, alpha: Option<u32>) -> Result<Color, ParseErrorView> {
    let s = trim(color_str);
    match hex_color(s) {
        Some(r) => r,
        None => match rgb_parts(s) {
            Some(parts) => rgb_color(parts, alpha),
            None => named_color(s),
        },
    }
}

/// `str::to_lowercase`.
#[verifier::external_body]
fn to_lowercase(s: &str) -> (r: String)
    ensures
        r@ == lowercase(s@),
{
    s.to_lowercase()
}

/// The number of characters taking up the first `k` bytes of `s`.
pub(crate) fn char_index(s: &[char], k: usize) -> (r: Option<usize>)
    ensures
        match r {
            Some(j) => char_index_of_byte(s@, k as nat) == Some(j as nat),
            None => char_index_of_byte(s@, k as nat) is None,
        },
{
    let mut bytes: usize = 0;
    let mut i: usize = 0;
    let n = s.len();
    while i < n
        invariant
            i <= n,
            n == s@.len(),
            bytes == utf8_len(s@.take(i as int)),
            bytes <= k,
        decreases n - i,
    {
        if bytes == k {
            proof {
                lemma_index_prefix(s@, i as int, k as nat);
            }
            return Some(i);
        }
        let c = s[i];
        let w: usize = if (c as u32) < 0x80 {
            1
        } else if (c as u32) < 0x800 {
            2
        } else if (c as u32) < 0x10000 {
            3
        } else {
            4
        };
        proof {
            assert(s@.take(i + 1).drop_last() =~= s@.take(i as int));
            assert(s@.take(i + 1).last() == c);
        }
        if w > k - bytes {
            proof {
                lemma_no_index_past(s@, i as int + 1, k as nat);
            }
            return None;
        }
        bytes = bytes + w;
        i = i + 1;
    }
    proof {
        assert(s@.take(n as int) =~= s@);
    }
    if bytes == k {
        proof {
            lemma_index_prefix(s@, n as int, k as nat);
        }
        Some(n)
    } else {
        proof {
            lemma_below_no_index(s@, k as nat);
        }
        None
    }
}

/// Byte lengths grow with the prefix.
proof fn lemma_utf8_len_prefix(s: Seq<char>, i: int, j: int)
    requires
        0 <= i <= j <= s.len(),
    ensures
        utf8_len(s.take(i)) <= utf8_len(s.take(j)),
        i < j ==> utf8_len(s.take(i)) < utf8_len(s.take(j)),
    decreases j - i,
{
    if i < j {
        assert(s.take(j).drop_last() =~= s.take(j - 1));
        lemma_utf8_len_prefix(s, i, j - 1);
    }
}

/// When the prefix of `i` characters takes exactly `k` bytes, `i` is the index of byte `k`.
pub(crate) proof fn lemma_index_prefix(s: Seq<char>, i: int, k: nat)
    requires
        0 <= i <= s.len(),
        utf8_len(s.take(i)) == k,
    ensures
        char_index_of_byte(s, k) == Some(i as nat),
    decreases s.len() - i,
{
    if i == s.len() {
        assert(s.take(i) =~= s);
    } else {
        lemma_utf8_len_prefix(s, i, s.len() as int);
        assert(s.take(s.len() as int) =~= s);
        assert(s.drop_last() =~= s.take(s.len() - 1));
        assert(s.drop_last().take(i) =~= s.take(i));
        lemma_index_prefix(s.drop_last(), i, k);
    }
}

/// When the prefix of `i` characters takes more than `k` bytes and the one
/// of `i - 1` characters fewer, byte `k` starts no character.
proof fn lemma_no_index_past(s: Seq<char>, i: int, k: nat)
    requires
        1 <= i <= s.len(),
        utf8_len(s.take(i)) > k,
        utf8_len(s.take(i - 1)) < k,
    ensures
        char_index_of_byte(s, k) is None,
    decreases s.len(),
{
    assert(s.take(s.len() as int) =~= s);
    lemma_utf8_len_prefix(s, i, s.len() as int);
    if s.len() > i {
        assert(s.drop_last().take(i) =~= s.take(i));
        assert(s.drop_last().take(i - 1) =~= s.take(i - 1));
        lemma_no_index_past(s.drop_last(), i, k);
    } else {
        assert(s.drop_last() =~= s.take(i - 1));
        lemma_below_no_index(s.drop_last(), k);
    }
}

/// No prefix of a text shorter than `k` bytes takes `k` bytes.
proof fn lemma_below_no_index(s: Seq<char>, k: nat)
    requires
        utf8_len(s) < k,
    ensures
        char_index_of_byte(s, k) is None,
    decreases s.len(),
{
    if s.len() > 0 {
        lemma_below_no_index(s.drop_last(), k);
    }
}

/// What the index of a byte is: a prefix that takes exactly that many bytes.
proof fn lemma_char_index_props(s: Seq<char>, k: nat)
    ensures
        match char_index_of_byte(s, k) {
            Some(j) => j <= s.len() && utf8_len(s.take(j as int)) == k,
            None => true,
        },
    decreases s.len(),
{
    if utf8_len(s) == k {
        assert(s.take(s.len() as int) =~= s);
    } else if s.len() > 0 {
        lemma_char_index_props(s.drop_last(), k);
        match char_index_of_byte(s.drop_last(), k) {
            Some(j) => {
                assert(s.drop_last().take(j as int) =~= s.take(j as int));
            },
            None => {},
        }
    }
}

/// Byte indices in order give character indices in order.
proof fn lemma_char_index_mono(s: Seq<char>, k1: nat, k2: nat)
    requires
        k1 <= k2,
        char_index_of_byte(s, k1) is Some,
        char_index_of_byte(s, k2) is Some,
    ensures
        char_index_of_byte(s, k1)->0 <= char_index_of_byte(s, k2)->0 <= s.len(),
{
    lemma_char_index_props(s, k1);
    lemma_char_index_props(s, k2);
    let j1 = char_index_of_byte(s, k1)->0 as int;
    let j2 = char_index_of_byte(s, k2)->0 as int;
    if j2 < j1 {
        lemma_utf8_len_prefix(s, j2, j1);
    }
}

/// The whole text takes `k` bytes exactly when byte `k` ends it.
pub(crate) proof fn lemma_len_is(s: Seq<char>, k: nat)
    ensures
        (utf8_len(s) == k) == (char_index_of_byte(s, k) == Some(s.len())),
{
    lemma_char_index_props(s, k);
    assert(s.take(s.len() as int) =~= s);
}

/// Whether `s` takes `k` bytes in UTF-8.
pub(crate) fn utf8_len_is(s: &[char], k: usize) -> (b: bool)
    ensures
        b == (utf8_len(s@) == k),
{
    proof {
        lemma_len_is(s@, k as nat);
        lemma_char_index_props(s@, k as nat);
    }
    match char_index(s, k) {
        Some(j) => j == s.len(),
        None => false,
    }
}

/// The `i`-th two-byte piece of `hex`.
pub(crate) fn hex_piece_of(hex: &[char], i: usize) -> (r: Vec<char>)
    requires
        i < 4,
        char_index_of_byte(hex@, 2 * i as nat) is Some,
        char_index_of_byte(hex@, 2 * i as nat + 2) is Some,
    ensures
        r@ == hex_piece(hex@, i as nat),
{
    proof {
        lemma_char_index_mono(hex@, 2 * i as nat, 2 * i as nat + 2);
        assert((2 * i) as nat == 2 * i as nat);
        assert((2 * i + 2) as nat == 2 * i as nat + 2);
    }
    let a = match char_index(hex, 2 * i) {
        Some(j) => j,
        None => 0,
    };
    let b = match char_index(hex, 2 * i + 2) {
        Some(j) => j,
        None => 0,
    };
    proof {
        let ja = char_index_of_byte(hex@, 2 * i as nat)->0;
        let jb = char_index_of_byte(hex@, 2 * i as nat + 2)->0;
        assert(ja <= jb <= hex@.len());
        assert(a as nat == ja);
        assert(b as nat == jb);
    }
    copy_range(hex, a, b)
}

/// A channel read with `u8::from_str_radix(piece, radix)`.
fn read_channel(piece: &[char], radix: u32) -> (r: Result<u8, ParseError>)
    requires
        radix == 10 || radix == 16,
    ensures
        same_result(r, channel(piece@, radix as nat)),
{
    match parse_u8_radix(piece, radix) {
        Some(v) => Ok(v),
        None => Err(ParseError::InvalidInteger(string_of(piece))),
    }
}

/// The hexadecimal form of a trimmed color text, when it applies.
fn hex_color_of(s: &[char]) -> (r: Option<Result<Color, ParseError>>)
    requires
        s@.len() > 0 && s@[0] == '#' ==> {
            let hex = s@.drop_first();
            (utf8_len(hex) == 6 ==> hex_slices_ok(hex, 3)) && (utf8_len(hex) == 8 ==> hex_slices_ok(
                hex,
                4,
            ))
        },
    ensures
        match hex_color(s@) {
            Some(e) => r is Some && same_result(r->0, e),
            None => r is None,
        },
{
    if s.len() == 0 || s[0] != '#' {
        return None;
    }
    let hex = copy_range(s, 1, s.len());
    assert(hex@ =~= s@.drop_first());
    let six = utf8_len_is(hex.as_slice(), 6);
    let eight = utf8_len_is(hex.as_slice(), 8);
    if !six && !eight {
        return None;
    }
    let pieces: usize = if six { 3 } else { 4 };
    proof {
        lemma_index_prefix(hex@, 0, 0);
        lemma_len_is(hex@, 2 * pieces as nat);
        assert(char_index_of_byte(hex@, 2) is Some);
        assert(char_index_of_byte(hex@, 4) is Some);
        if eight {
            assert(char_index_of_byte(hex@, 6) is Some);
        }
    }
    let p0 = hex_piece_of(hex.as_slice(), 0);
    let r = match read_channel(p0.as_slice(), 16) {
        Ok(v) => v,
        Err(e) => return Some(Err(e)),
    };
    let p1 = hex_piece_of(hex.as_slice(), 1);
    let g = match read_channel(p1.as_slice(), 16) {
        Ok(v) => v,
        Err(e) => return Some(Err(e)),
    };
    let p2 = hex_piece_of(hex.as_slice(), 2);
    let b = match read_channel(p2.as_slice(), 16) {
        Ok(v) => v,
        Err(e) => return Some(Err(e)),
    };
    if six {
        return Some(Ok(Color::new(r, g, b, 255)));
    }
    let p3 = hex_piece_of(hex.as_slice(), 3);
    let a = match read_channel(p3.as_slice(), 16) {
        Ok(v) => v,
        Err(e) => return Some(Err(e)),
    };
    Some(Ok(Color::new(r, g, b, a)))
}

/// The parts inside the functional form of a trimmed color text, when it applies.
fn rgb_parts_of(s: &[char]) -> (r: Option<Vec<Vec<char>>>)
    ensures
        match rgb_parts(s@) {
            Some(p) => r is Some && r->0.deep_view() == p,
            None => r is None,
        },
{
    let rgb = chars_of("rgb(");
    let rgba = chars_of("rgba(");
    if !(starts_with(s, rgb.as_slice()) || starts_with(s, rgba.as_slice())) {
        return None;
    }
    let a = strip_prefixes_of(s, rgb.as_slice());
    let b = strip_prefixes_of(a.as_slice(), rgba.as_slice());
    let inner = strip_suffix_chars_of(b.as_slice(), ')');
    let parts = split_chars(inner.as_slice(), ',');
    if parts.len() >= 3 {
        Some(parts)
    } else {
        None
    }
}

/// The trimmed `i`-th part.
fn trimmed_part(parts: &Vec<Vec<char>>, i: usize) -> (r: Vec<char>)
    requires
        i < parts@.len(),
    ensures
        r@ == trim(parts.deep_view()[i as int]),
{
    proof {
        lemma_deep_view_chars(parts@[i as int]);
    }
    trim_chars(parts[i].as_slice())
}

/// A named color.
fn named_color_of(s: &[char]) -> (r: Result<Color, ParseError>)
    ensures
        same_result(r, named_color(s@)),
{
    let text = string_of(s);
    let l = to_lowercase(text.as_str());
    if l == owned("red") {
        Ok(Color::new(255, 0, 0, 255))
    } else if l == owned("green") {
        Ok(Color::new(0, 255, 0, 255))
    } else if l == owned("blue") {
        Ok(Color::new(0, 0, 255, 255))
    } else if l == owned("white") {
        Ok(Color::new(255, 255, 255, 255))
    } else if l == owned("black") {
        Ok(Color::new(0, 0, 0, 255))
    } else if l == owned("transparent") {
        Ok(Color::new(0, 0, 0, 0))
    } else {
        let mut cs = chars_of("Unknown color: ");
        let mut rest = copy_range(s, 0, s.len());
        assert(rest@ =~= s@);
        cs.append(&mut rest);
        assert(cs@ =~= "Unknown color: "@ + s@);
        Err(ParseError::InvalidFormat(string_of(cs.as_slice())))
    }
}

/// The text of `color_str` that is decoded as an `f32`, if any.
pub fn color_alpha_text(color_str: &str) -> (r: Option<String>)
    requires
        color_slices_ok(color_str@),
    ensures
        match alpha_text(color_str@) {
            Some(t) => r is Some && r->0@ == t,
            None => r is None,
        },
{
    let s = trim_chars(chars_of(color_str).as_slice());
    if hex_color_of(s.as_slice()).is_some() {
        return None;
    }
    match rgb_parts_of(s.as_slice()) {
        Some(parts) => if parts.len() > 3 {
            let t = trimmed_part(&parts, 3);
            Some(string_of(t.as_slice()))
        } else {
            None
        },
        None => None,
    }
}

// ---------------------------------------------------------------------------
// The custom format
// ---------------------------------------------------------------------------

/// The binary32 bit patterns of 1.0 and 12.0.
pub open spec fn one_f32() -> u32 { 0x3F80_0000 }
pub open spec fn twelve_f32() -> u32 { 0x4140_0000 }

/// The default style: lines in opaque black, 1 wide, Arial 12.
pub open spec fn default_style() -> StyleView {
    StyleView {
        draw_mode: DrawMode::Line,
        line_color: Some(Color { r: 0, g: 0, b: 0, a: 255 }),
        fill_color: None,
        line_width: one_f32(),
        font_family: Some("Arial"@),
        font_size: twelve_f32(),
        text_field: None,
        min_zoom: None,
        max_zoom: None,
    }
}

impl Default for RenderStyle {
    fn default() -> (s: Self)
        ensures
            s@ == default_style(),
    {
        RenderStyle {
            draw_mode: DrawMode::Line,
            line_color: Some(Color::new(0, 0, 0, 255)),
            fill_color: None,
            line_width: 0x3F80_0000u32,
            font_family: Some(owned("Arial")),
            font_size: 0x4140_0000u32,
            text_field: None,
            min_zoom: None,
            max_zoom: None,
        }
    }
}

/// The selector written `key=value` or `key`.
pub open spec fn selector_of(w: Seq<char>) -> SelectorView {
    match split_once(w, '=') {
        Some((k, v)) => SelectorView::Tag { key: k, value: Some(v) },
        None => SelectorView::Tag { key: w, value: None },
    }
}

/// The rule that a `features` line starts: one tag selector per word after
/// the first, with the default style.
pub open spec fn features_rule(line: Seq<char>) -> Result<RuleView, ParseErrorView> {
    let parts = words(line);
    if parts.len() < 2 {
        Err(ParseErrorView::InvalidFormat("Invalid features line"@))
    } else {
        Ok(
            RuleView {
                selectors: parts.skip(1).map_values(|w: Seq<char>| selector_of(w)),
                style: default_style(),
            },
        )
    }
}

/// Whether a trimmed line is skipped: empty or a comment.
pub open spec fn skipped(l: Seq<char>) -> bool {
    l.len() == 0 || has_prefix(l, "//"@) || has_prefix(l, "#"@)
}

/// The name and value of a `define` line, if it has both.
pub open spec fn define_parts(l: Seq<char>) -> Option<(Seq<char>, Seq<char>)> {
    let parts = words(l);
    if parts.len() >= 3 && parts[0] == "define"@ {
        Some((parts[1], join_spaced(parts.skip(2))))
    } else {
        None
    }
}

/// The trimmed key and value of a property line, if it has a colon.
pub open spec fn property_parts(l: Seq<char>) -> Option<(Seq<char>, Seq<char>)> {
    match split_once(l, ':') {
        Some((k, v)) => Some((trim(k), trim(v))),
        None => None,
    }
}

/// The text of a trimmed line that is decoded as an `f32`, if any: the
/// alpha text of a defined or line/fill color, or a line width or font size.
pub open spec fn line_decimal_text(l: Seq<char>) -> Option<Seq<char>> {
    if skipped(l) || has_prefix(l, "features"@) {
        None
    } else if has_prefix(l, "define"@) {
        match define_parts(l) {
            Some((_, value)) => if color_slices_ok(value) {
                alpha_text(value)
            } else {
                None
            },
            None => None,
        }
    } else {
        match property_parts(l) {
            Some((k, v)) => if k == "line-color"@ || k == "fill-color"@ {
                if color_slices_ok(v) {
                    alpha_text(v)
                } else {
                    None
                }
            } else if k == "line-width"@ || k == "font-size"@ {
                Some(v)
            } else {
                None
            },
            None => None,
        }
    }
}

/// The state of the custom-format parser between lines.
pub struct CustomState {
    pub rules: Seq<RuleView>,
    pub current: Option<RuleView>,
    pub variables: Map<Seq<char>, VariableView>,
}

/// What one line does: go on, fail, or reach a slice that panics.
pub enum LineStep {
    Go(CustomState),
    Fail(ParseErrorView),
    Panic,
}

/// The draw mode that a `draw` value names; unknown values draw lines.
pub open spec fn draw_mode_of(v: Seq<char>) -> DrawMode {
    if v == "line"@ {
        DrawMode::Line
    } else if v == "fill"@ {
        DrawMode::Fill
    } else if v == "both"@ {
        DrawMode::Both
    } else if v == "point"@ {
        DrawMode::Point
    } else {
        DrawMode::Line
    }
}

/// The style after a property line, given how its decimal text decoded.
pub open spec fn property_style(st: StyleView, k: Seq<char>, v: Seq<char>, dec: Option<u32>) -> Result<
    StyleView,
    ParseErrorView,
> {
    if k == "draw"@ {
        Ok(StyleView { draw_mode: draw_mode_of(v), ..st })
    } else if k == "line-color"@ {
        match color_of(v, dec) {
            Ok(c) => Ok(StyleView { line_color: Some(c), ..st }),
            Err(e) => Err(e),
        }
    } else if k == "fill-color"@ {
        match color_of(v, dec) {
            Ok(c) => Ok(StyleView { fill_color: Some(c), ..st }),
            Err(e) => Err(e),
        }
    } else if k == "line-width"@ {
        Ok(
            StyleView {
                line_width: match dec {
                    Some(b) => b,
                    None => one_f32(),
                },
                ..st
            },
        )
    } else if k == "font-family"@ {
        Ok(StyleView { font_family: Some(v), ..st })
    } else if k == "font-size"@ {
        Ok(
            StyleView {
                font_size: match dec {
                    Some(b) => b,
                    None => twelve_f32(),
                },
                ..st
            },
        )
    } else if k == "text"@ {
        Ok(StyleView { text_field: Some(v), ..st })
    } else if k == "min-zoom"@ {
        Ok(
            StyleView {
                min_zoom: Some(
                    match parse_u32_spec(v) {
                        Some(z) => z,
                        None => 0,
                    },
                ),
                ..st
            },
        )
    } else if k == "max-zoom"@ {
        Ok(
            StyleView {
                max_zoom: Some(
                    match parse_u32_spec(v) {
                        Some(z) => z,
                        None => 18,
                    },
                ),
                ..st
            },
        )
    } else {
        Ok(st)
    }
}

/// Whether a property sets a color from its value.
pub open spec fn is_color_key(k: Seq<char>) -> bool {
    k == "line-color"@ || k == "fill-color"@
}

/// What one (untrimmed) line does, given how its decimal text decoded.
pub open spec fn line_step(st: CustomState, raw: Seq<char>, dec: Option<u32>) -> LineStep {
    let l = trim(raw);
    if skipped(l) {
        LineStep::Go(st)
    } else if has_prefix(l, "features"@) {
        match features_rule(l) {
            Ok(rule) => LineStep::Go(
                CustomState {
                    rules: match st.current {
                        Some(c) => st.rules.push(c),
                        None => st.rules,
                    },
                    current: Some(rule),
                    ..st
                },
            ),
            Err(e) => LineStep::Fail(e),
        }
    } else if has_prefix(l, "define"@) {
        match define_parts(l) {
            Some((name, value)) => if !color_slices_ok(value) {
                LineStep::Panic
            } else {
                LineStep::Go(
                    CustomState {
                        variables: st.variables.insert(
                            name,
                            match color_of(value, dec) {
                                Ok(c) => VariableView::Color(c),
                                Err(_) => VariableView::String(value),
                            },
                        ),
                        ..st
                    },
                )
            },
            None => LineStep::Go(st),
        }
    } else {
        match st.current {
            Some(rule) => match property_parts(l) {
                Some((k, v)) => if is_color_key(k) && !color_slices_ok(v) {
                    LineStep::Panic
                } else {
                    match property_style(rule.style, k, v, dec) {
                        Ok(style) => LineStep::Go(
                            CustomState { current: Some(RuleView { style, ..rule }), ..st },
                        ),
                        Err(e) => LineStep::Fail(e),
                    }
                },
                None => LineStep::Go(st),
            },
            None => LineStep::Go(st),
        }
    }
}

/// The stylesheet once the lines run out.
pub open spec fn finish(st: CustomState) -> SheetView {
    SheetView {
        rules: match st.current {
            Some(c) => st.rules.push(c),
            None => st.rules,
        },
        variables: st.variables,
    }
}

/// What parsing a stylesheet ends in.
pub enum CustomOutcome {
    Done(SheetView),
    Fail(ParseErrorView),
    Panic,
}

/// Runs the lines from state `st`; `decs[i]` is how the decimal text of
/// line `i` decoded.
pub open spec fn custom_run(lines: Seq<Seq<char>>, decs: Seq<Option<u32>>, st: CustomState) -> CustomOutcome
    decreases lines.len(),
{
    if lines.len() == 0 {
        CustomOutcome::Done(finish(st))
    } else {
        match line_step(st, lines[0], decs[0]) {
            LineStep::Go(s2) => custom_run(lines.drop_first(), decs.drop_first(), s2),
            LineStep::Fail(e) => CustomOutcome::Fail(e),
            LineStep::Panic => CustomOutcome::Panic,
        }
    }
}

/// The lines of a text: its pieces between line feeds.
pub open spec fn text_lines(content: Seq<char>) -> Seq<Seq<char>> {
    split_on(content, '\n')
}

/// The state before the first line.
pub open spec fn initial_custom() -> CustomState {
    CustomState { rules: Seq::empty(), current: None, variables: Map::empty() }
}

/// What parsing `content` in the custom format gives.
pub open spec fn custom_parse(content: Seq<char>, decs: Seq<Option<u32>>) -> CustomOutcome {
    custom_run(text_lines(content), decs, initial_custom())
}

/// Whether parsing `content` slices no color text badly, however its
/// decimal texts decode.
pub open spec fn custom_slices_ok(content: Seq<char>) -> bool {
    forall|decs: Seq<Option<u32>>|
        decs.len() == text_lines(content).len() ==> !(#[trigger] custom_parse(content, decs) is Panic)
}

/// `r` is the outcome that `o` describes.
pub open spec fn sheet_outcome(r: Result<StyleSheet, ParseError>, o: CustomOutcome) -> bool {
    match o {
        CustomOutcome::Done(v) => r is Ok && r->Ok_0@ == v,
        CustomOutcome::Fail(e) => r is Err && r->Err_0@ == e,
        CustomOutcome::Panic => false,
    }
}

/// `decs[i]` is what `parse_f32` gave for the decimal text of line `i`, or
/// `None` where the line has none, for the lines that were read.
pub open spec fn decoded_lines<F: Fn(&str) -> Option<u32>>(
    lines: Seq<Seq<char>>,
    decs: Seq<Option<u32>>,
    parse_f32: F,
) -> bool {
    &&& decs.len() <= lines.len()
    &&& forall|i: int|
        0 <= i < decs.len() ==> match line_decimal_text(trim(#[trigger] lines[i])) {
            Some(t) => exists|a: &str| a@ == t && call_ensures(parse_f32, (a,), decs[i]),
            None => decs[i] is None,
        }
}

impl StylesheetParser {
    /// A stylesheet parser.
    pub fn new() -> (p: Self) {
        StylesheetParser
    }

    /// Parses a color: `#RRGGBB`, `#RRGGBBAA`, `rgb(r, g, b)`, `rgba(r, g, b, alpha)`
    /// or a color name; `alpha` is how the alpha text (`alpha_text`) decoded
    /// as an `f32`, if there is one.
    pub fn parse_color_with_alpha(&self, color_str: &str, alpha: Option<u32>) -> (r: Result<
        Color,
        ParseError,
    >)
        requires
            color_slices_ok(color_str@),
        ensures
            same_result(r, color_of(color_str@, alpha)),
    {
        let s = trim_chars(chars_of(color_str).as_slice());
        match hex_color_of(s.as_slice()) {
            Some(r) => return r,
            None => {},
        }
        match rgb_parts_of(s.as_slice()) {
            Some(parts) => {
                let p0 = trimmed_part(&parts, 0);
                let r = read_channel(p0.as_slice(), 10)?;
                let p1 = trimmed_part(&parts, 1);
                let g = read_channel(p1.as_slice(), 10)?;
                let p2 = trimmed_part(&parts, 2);
                let b = read_channel(p2.as_slice(), 10)?;
                if parts.len() > 3 {
                    match alpha {
                        Some(bits) => Ok(Color::new(r, g, b, f32_times_255_to_byte(bits))),
                        None => {
                            let p3 = trimmed_part(&parts, 3);
                            Err(ParseError::InvalidFloat(string_of(p3.as_slice())))
                        },
                    }
                } else {
                    Ok(Color::new(r, g, b, 255))
                }
            },
            None => named_color_of(s.as_slice()),
        }
    }

    /// Parses a color (see `parse_color_with_alpha`); the alpha text of the
    /// functional form decodes through `parse_f32` (the caller's `str::parse::<f32>`).
    pub fn parse_color<F: Fn(&str) -> Option<u32>>(&self, color_str: &str, parse_f32: &F) -> (r:
        Result<Color, ParseError>)
        requires
            color_slices_ok(color_str@),
            forall|s: &str| #[trigger] parse_f32.requires((s,)),
        ensures
            match alpha_text(color_str@) {
                Some(t) => exists|a: &str, v: Option<u32>|
                    #![trigger call_ensures(*parse_f32, (a,), v)]
                    a@ == t && call_ensures(*parse_f32, (a,), v) && same_result(
                        r,
                        color_of(color_str@, v),
                    ),
                None => same_result(r, color_of(color_str@, None)),
            },
    {
        match color_alpha_text(color_str) {
            Some(t) => {
                let ts = t.as_str();
                let v = parse_f32(ts);
                let r = self.parse_color_with_alpha(color_str, v);
                assert(call_ensures(*parse_f32, (ts,), v));
                r
            },
            None => self.parse_color_with_alpha(color_str, None),
        }
    }
}

/// The view of an optional rule.
pub open spec fn opt_rule_view(r: Option<StyleRule>) -> Option<RuleView> {
    match r {
        Some(x) => Some(x@),
        None => None,
    }
}

/// The text of characters as a `String`.
pub(crate) fn text_of(v: &Vec<char>) -> (s: String)
    ensures
        s@ == v@,
{
    string_of(v.as_slice())
}

/// `Some` of a text.
fn some_text(v: &Vec<char>) -> (r: Option<String>)
    ensures
        opt_text(r) == Some(v@),
{
    Some(text_of(v))
}

/// Whether the characters are the text `lit`.
pub(crate) fn is_text(v: &[char], lit: &str) -> (b: bool)
    ensures
        b == (v@ == lit@),
{
    let l = chars_of(lit);
    chars_eq(v, l.as_slice())
}

/// Whether the characters begin with the text `lit`.
pub(crate) fn begins_with(v: &[char], lit: &str) -> (b: bool)
    ensures
        b == has_prefix(v@, lit@),
{
    let l = chars_of(lit);
    starts_with(v, l.as_slice())
}

/// The name and value of a `define` line.
fn define_parts_of(l: &[char]) -> (r: Option<(Vec<char>, Vec<char>)>)
    ensures
        match define_parts(l@) {
            Some((n, v)) => match r {
                Some((a, b)) => a@ == n && b@ == v,
                None => false,
            },
            None => r is None,
        },
{
    let parts = split_whitespace(l);
    if parts.len() >= 3 {
        proof {
            lemma_deep_view_chars(parts@[0]);
            lemma_deep_view_chars(parts@[1]);
        }
        if is_text(parts[0].as_slice(), "define") {
            let name = copy_range(parts[1].as_slice(), 0, parts[1].len());
            assert(name@ =~= parts@[1]@);
            let mut rest: Vec<Vec<char>> = Vec::new();
            let n = parts.len();
            for j in 2..n
                invariant
                    n == parts@.len(),
                    rest@.len() == j - 2,
                    forall|t: int| 0 <= t < j - 2 ==> (#[trigger] rest@[t])@ == parts.deep_view()[t + 2],
            {
                proof {
                    lemma_deep_view_chars(parts@[j as int]);
                }
                let w = copy_range(parts[j].as_slice(), 0, parts[j].len());
                assert(w@ =~= parts@[j as int]@);
                rest.push(w);
            }
            proof {
                assert forall|t: int| 0 <= t < rest@.len() implies rest.deep_view()[t] == rest@[t]@ by {
                    lemma_deep_view_chars(rest@[t]);
                }
                assert(rest.deep_view() =~= parts.deep_view().skip(2));
            }
            let value = join_with_spaces(rest.as_slice());
            return Some((name, value));
        }
    }
    None
}

/// The trimmed key and value of a property line.
fn property_parts_of(l: &[char]) -> (r: Option<(Vec<char>, Vec<char>)>)
    ensures
        match property_parts(l@) {
            Some((k, v)) => match r {
                Some((a, b)) => a@ == k && b@ == v,
                None => false,
            },
            None => r is None,
        },
{
    match split_once_char(l, ':') {
        Some((k, v)) => Some((trim_chars(k.as_slice()), trim_chars(v.as_slice()))),
        None => None,
    }
}

/// Whether parsing `color_str` as a color slices it safely (`color_slices_ok`).
pub fn slices_ok(color_str: &str) -> (b: bool)
    ensures
        b == color_slices_ok(color_str@),
{
    let s = trim_chars(chars_of(color_str).as_slice());
    if s.len() == 0 || s[0] != '#' {
        return true;
    }
    let hex = copy_range(s.as_slice(), 1, s.len());
    assert(hex@ =~= s@.drop_first());
    let six = utf8_len_is(hex.as_slice(), 6);
    let eight = utf8_len_is(hex.as_slice(), 8);
    if !six && !eight {
        return true;
    }
    let a = char_index(hex.as_slice(), 2).is_some();
    let b = char_index(hex.as_slice(), 4).is_some();
    if six {
        proof {
            assert(hex_slices_ok(hex@, 3) == (char_index_of_byte(hex@, 2) is Some && char_index_of_byte(hex@, 4) is Some)) by {
                assert(char_index_of_byte(hex@, 2 * 1) is Some == char_index_of_byte(hex@, 2) is Some);
                assert(char_index_of_byte(hex@, 2 * 2) is Some == char_index_of_byte(hex@, 4) is Some);
            }
        }
        a && b
    } else {
        let c = char_index(hex.as_slice(), 6).is_some();
        proof {
            assert(hex_slices_ok(hex@, 4) == (char_index_of_byte(hex@, 2) is Some && char_index_of_byte(hex@, 4) is Some && char_index_of_byte(hex@, 6) is Some)) by {
                assert(char_index_of_byte(hex@, 2 * 1) is Some == char_index_of_byte(hex@, 2) is Some);
                assert(char_index_of_byte(hex@, 2 * 2) is Some == char_index_of_byte(hex@, 4) is Some);
                assert(char_index_of_byte(hex@, 2 * 3) is Some == char_index_of_byte(hex@, 6) is Some);
            }
        }
        a && b && c
    }
}

/// The decimal text of a trimmed line (see `line_decimal_text`).
fn line_decimal_text_of(l: &[char]) -> (r: Option<String>)
    ensures
        match line_decimal_text(l@) {
            Some(t) => r is Some && r->0@ == t,
            None => r is None,
        },
{
    if l.len() == 0 || begins_with(l, "//") || begins_with(l, "#") || begins_with(l, "features") {
        return None;
    }
    if begins_with(l, "define") {
        return match define_parts_of(l) {
            Some((_, value)) => {
                let vs = text_of(&value);
                if slices_ok(vs.as_str()) {
                    color_alpha_text(vs.as_str())
                } else {
                    None
                }
            },
            None => None,
        };
    }
    match property_parts_of(l) {
        Some((k, v)) => {
            let vs = text_of(&v);
            if is_text(k.as_slice(), "line-color") || is_text(k.as_slice(), "fill-color") {
                if slices_ok(vs.as_str()) {
                    color_alpha_text(vs.as_str())
                } else {
                    None
                }
            } else if is_text(k.as_slice(), "line-width") || is_text(k.as_slice(), "font-size") {
                Some(vs)
            } else {
                None
            }
        },
        None => None,
    }
}

impl Default for StyleSheet {
    fn default() -> (s: Self)
        ensures
            s@.rules.len() == 0,
            s@.variables == Map::<Seq<char>, VariableView>::empty(),
    {
        let s = StyleSheet { rules: Vec::new(), variables: StrMap::new() };
        assert(s@.variables =~= Map::<Seq<char>, VariableView>::empty());
        s
    }
}

impl StylesheetParser {
    /// The rule that a `features` line starts.
    pub fn parse_features_line(&self, line: &str) -> (r: Result<StyleRule, ParseError>)
        ensures
            match features_rule(line@) {
                Ok(v) => r is Ok && r->Ok_0@ == v,
                Err(e) => r is Err && r->Err_0@ == e,
            },
    {
        let parts = split_whitespace(chars_of(line).as_slice());
        if parts.len() < 2 {
            return Err(ParseError::InvalidFormat(owned("Invalid features line")));
        }
        let mut selectors: Vec<FeatureSelector> = Vec::new();
        let n = parts.len();
        for j in 1..n
            invariant
                n == parts@.len(),
                parts.deep_view() == words(line@),
                selectors@.len() == j - 1,
                forall|t: int|
                    0 <= t < j - 1 ==> (#[trigger] selectors@[t])@ == selector_of(
                        parts.deep_view()[t + 1],
                    ),
        {
            proof {
                lemma_deep_view_chars(parts@[j as int]);
            }
            let w = &parts[j];
            let sel = match split_once_char(w.as_slice(), '=') {
                Some((k, v)) => FeatureSelector::Tag { key: text_of(&k), value: some_text(&v) },
                None => FeatureSelector::Tag { key: text_of(w), value: None },
            };
            selectors.push(sel);
        }
        let rule = StyleRule { selectors, style: RenderStyle::default() };
        proof {
            assert(selector_views(rule.selectors@) =~= words(line@).skip(1).map_values(
                |w: Seq<char>| selector_of(w),
            ));
        }
        Ok(rule)
    }

    /// Records the variable that a `define` line defines: a color when its
    /// value parses as one (its alpha text decoding as `alpha`), else the text.
    pub fn parse_define_line(&self, line: &str, stylesheet: &mut StyleSheet, alpha: Option<u32>) -> (r:
        Result<(), ParseError>)
        requires
            match define_parts(line@) {
                Some((_, v)) => color_slices_ok(v),
                None => true,
            },
        ensures
            r is Ok,
            final(stylesheet)@.rules == old(stylesheet)@.rules,
            final(stylesheet)@.variables == match define_parts(line@) {
                Some((name, value)) => old(stylesheet)@.variables.insert(
                    name,
                    match color_of(value, alpha) {
                        Ok(c) => VariableView::Color(c),
                        Err(_) => VariableView::String(value),
                    },
                ),
                None => old(stylesheet)@.variables,
            },
    {
        let l = chars_of(line);
        match define_parts_of(l.as_slice()) {
            Some((name, value)) => {
                let vs = text_of(&value);
                let var = match self.parse_color_with_alpha(vs.as_str(), alpha) {
                    Ok(c) => StyleVariable::Color(c),
                    Err(_) => StyleVariable::String(vs),
                };
                let ghost old_vars = stylesheet.variables@;
                let ghost vv = var@;
                stylesheet.variables.insert(text_of(&name), var);
                proof {
                    assert(stylesheet.variables@.map_values(|v: StyleVariable| v@) =~= old_vars.map_values(
                        |v: StyleVariable| v@,
                    ).insert(name@, vv));
                }
            },
            None => {},
        }
        Ok(())
    }

    /// Applies a property line to `rule`; `dec` is how its decimal text decoded.
    pub fn parse_style_property(&self, line: &str, rule: &mut StyleRule, dec: Option<u32>) -> (r: Result<
        (),
        ParseError,
    >)
        requires
            match property_parts(line@) {
                Some((k, v)) => is_color_key(k) ==> color_slices_ok(v),
                None => true,
            },
        ensures
            match property_parts(line@) {
                Some((k, v)) => match property_style(old(rule)@.style, k, v, dec) {
                    Ok(st) => r is Ok && final(rule)@ == (RuleView { style: st, ..old(rule)@ }),
                    Err(e) => r is Err && r->Err_0@ == e,
                },
                None => r is Ok && final(rule)@ == old(rule)@,
            },
    {
        let l = chars_of(line);
        let (k, v) = match property_parts_of(l.as_slice()) {
            Some(p) => p,
            None => return Ok(()),
        };
        let k = k.as_slice();
        if is_text(k, "draw") {
            rule.style.draw_mode = if is_text(v.as_slice(), "line") {
                DrawMode::Line
            } else if is_text(v.as_slice(), "fill") {
                DrawMode::Fill
            } else if is_text(v.as_slice(), "both") {
                DrawMode::Both
            } else if is_text(v.as_slice(), "point") {
                DrawMode::Point
            } else {
                DrawMode::Line
            };
        } else if is_text(k, "line-color") {
            let vs = text_of(&v);
            let c = self.parse_color_with_alpha(vs.as_str(), dec)?;
            rule.style.line_color = Some(c);
        } else if is_text(k, "fill-color") {
            let vs = text_of(&v);
            let c = self.parse_color_with_alpha(vs.as_str(), dec)?;
            rule.style.fill_color = Some(c);
        } else if is_text(k, "line-width") {
            rule.style.line_width = match dec {
                Some(b) => b,
                None => 0x3F80_0000u32,
            };
        } else if is_text(k, "font-family") {
            rule.style.font_family = some_text(&v);
        } else if is_text(k, "font-size") {
            rule.style.font_size = match dec {
                Some(b) => b,
                None => 0x4140_0000u32,
            };
        } else if is_text(k, "text") {
            rule.style.text_field = some_text(&v);
        } else if is_text(k, "min-zoom") {
            rule.style.min_zoom = Some(
                match parse_u32_dec(v.as_slice()) {
                    Some(z) => z,
                    None => 0,
                },
            );
        } else if is_text(k, "max-zoom") {
            rule.style.max_zoom = Some(
                match parse_u32_dec(v.as_slice()) {
                    Some(z) => z,
                    None => 18,
                },
            );
        }
        Ok(())
    }
}

/// Running all lines with decodings `decs` then `d` agrees with running the
/// rest of the lines from `st` with `d`, whatever `d` is.
pub open spec fn runs_agree(
    all: Seq<Seq<char>>,
    decs: Seq<Option<u32>>,
    rest: Seq<Seq<char>>,
    st: CustomState,
) -> bool {
    forall|d: Seq<Option<u32>>|
        d.len() == rest.len() ==> custom_run(all, decs + d, initial_custom()) == #[trigger] custom_run(
            rest,
            d,
            st,
        )
}

/// The state that the parser's variables hold.
pub open spec fn custom_state(rules: Seq<StyleRule>, current: Option<StyleRule>, vars: Map<
    Seq<char>,
    StyleVariable,
>) -> CustomState {
    CustomState {
        rules: rule_views(rules),
        current: opt_rule_view(current),
        variables: vars.map_values(|v: StyleVariable| v@),
    }
}

/// A line whose step does not panic meets the slicing requirements of its parts.
proof fn lemma_no_panic_line(st: CustomState, raw: Seq<char>, dec: Option<u32>)
    requires
        !(line_step(st, raw, dec) is Panic),
    ensures
        ({
            let l = trim(raw);
            &&& !skipped(l) && !has_prefix(l, "features"@) && has_prefix(l, "define"@)
                ==> match define_parts(l) {
                Some((_, v)) => color_slices_ok(v),
                None => true,
            }
            &&& !skipped(l) && !has_prefix(l, "features"@) && !has_prefix(l, "define"@)
                && st.current is Some ==> match property_parts(l) {
                Some((k, v)) => is_color_key(k) ==> color_slices_ok(v),
                None => true,
            }
        }),
{
}

/// `r` is what parsing gives when its run ends in `o`: `None` exactly where
/// the run reaches a color text it would slice badly.
pub open spec fn checked_outcome(r: Option<Result<StyleSheet, ParseError>>, o: CustomOutcome) -> bool {
    match r {
        Some(x) => sheet_outcome(x, o),
        None => o is Panic,
    }
}

/// Whether the trimmed line `l` of the raw line `raw` slices a color text
/// badly in state `st`, whatever its decimal text decodes to.
fn line_would_panic(l: &Vec<char>, has_current: bool, st: Ghost<CustomState>, raw: Ghost<Seq<char>>) -> (b:
    bool)
    requires
        l@ == trim(raw@),
        has_current == st@.current is Some,
    ensures
        forall|x: Option<u32>| b == (#[trigger] line_step(st@, raw@, x) is Panic),
{
    if l.len() == 0 || begins_with(l.as_slice(), "//") || begins_with(l.as_slice(), "#") || begins_with(
        l.as_slice(),
        "features",
    ) {
        false
    } else if begins_with(l.as_slice(), "define") {
        match define_parts_of(l.as_slice()) {
            Some((_, v)) => !slices_ok(text_of(&v).as_str()),
            None => false,
        }
    } else if has_current {
        match property_parts_of(l.as_slice()) {
            Some((k, v)) => (is_text(k.as_slice(), "line-color") || is_text(k.as_slice(), "fill-color"))
                && !slices_ok(text_of(&v).as_str()),
            None => false,
        }
    } else {
        false
    }
}

impl StylesheetParser {
    /// Applies one trimmed line to the parser's state.
    fn apply_line(
        &self,
        l: &Vec<char>,
        raw: Ghost<Seq<char>>,
        dec: Option<u32>,
        rules: &mut Vec<StyleRule>,
        current: &mut Option<StyleRule>,
        variables: &mut StrMap<StyleVariable>,
    ) -> (r: Result<(), ParseError>)
        requires
            l@ == trim(raw@),
            !(line_step(custom_state(old(rules)@, *old(current), old(variables)@), raw@, dec) is Panic),
        ensures
            match line_step(custom_state(old(rules)@, *old(current), old(variables)@), raw@, dec) {
                LineStep::Go(s2) => r is Ok && custom_state(final(rules)@, *final(current), final(variables)@) == s2,
                LineStep::Fail(e) => r is Err && r->Err_0@ == e,
                LineStep::Panic => false,
            },
    {
        proof {
            lemma_no_panic_line(custom_state(rules@, *current, variables@), raw@, dec);
        }
        let ls = text_of(&l);
        if l.len() == 0 || begins_with(l.as_slice(), "//") || begins_with(l.as_slice(), "#") {
            Ok(())
        } else if begins_with(l.as_slice(), "features") {
            match self.parse_features_line(ls.as_str()) {
                Ok(rule) => {
                    match current.take() {
                        Some(c) => {
                            let ghost r0 = rules@;
                            rules.push(c);
                            proof {
                                assert(rule_views(rules@) =~= rule_views(r0).push(c@));
                            }
                        },
                        None => {},
                    }
                    *current = Some(rule);
                    Ok(())
                },
                Err(e) => Err(e),
            }
        } else if begins_with(l.as_slice(), "define") {
            let mut vars = StrMap::new();
            std::mem::swap(&mut vars, variables);
            let mut sheet = StyleSheet { rules: Vec::new(), variables: vars };
            let r = self.parse_define_line(ls.as_str(), &mut sheet, dec);
            *variables = sheet.variables;
            r
        } else {
            match current.take() {
                Some(mut rule) => {
                    let r = self.parse_style_property(ls.as_str(), &mut rule, dec);
                    *current = Some(rule);
                    r
                },
                None => Ok(()),
            }
        }
    }

    /// Parses the custom format as `parse_custom_format` does, but stops with
    /// `None` at the first line that would slice a color text badly.
    fn run_custom_format<F: Fn(&str) -> Option<u32>>(&self, content: &str, parse_f32: &F) -> (r:
        Option<Result<StyleSheet, ParseError>>)
        requires
            forall|s: &str| #[trigger] parse_f32.requires((s,)),
        ensures
            exists|decs: Seq<Option<u32>>|
                #![trigger decoded_lines(text_lines(content@), decs, *parse_f32)]
                decoded_lines(text_lines(content@), decs, *parse_f32) && forall|d: Seq<Option<u32>>|
                    (decs + d).len() == text_lines(content@).len() ==> #[trigger] checked_outcome(
                        r,
                        custom_parse(content@, decs + d),
                    ),
    {
        let lines = split_chars(chars_of(content).as_slice(), '\n');
        let ghost all = text_lines(content@);
        let mut rules: Vec<StyleRule> = Vec::new();
        let mut current: Option<StyleRule> = None;
        let mut variables: StrMap<StyleVariable> = StrMap::new();
        let ghost mut decs: Seq<Option<u32>> = Seq::empty();
        proof {
            assert(lines.deep_view() == all);
            assert(custom_state(rules@, current, variables@) == initial_custom()) by {
                assert(rule_views(rules@) =~= Seq::<RuleView>::empty());
                assert(variables@.map_values(|v: StyleVariable| v@) =~= Map::<
                    Seq<char>,
                    VariableView,
                >::empty());
            }
            assert forall|d: Seq<Option<u32>>| d.len() == all.len() implies custom_run(
                all,
                decs + d,
                initial_custom(),
            ) == custom_run(all.skip(0), d, custom_state(rules@, current, variables@)) by {
                assert(decs + d =~= d);
                assert(all.skip(0) =~= all);
            }
            assert(runs_agree(all, decs, all.skip(0), custom_state(rules@, current, variables@)));
        }
        let n = lines.len();
        for i in 0..n
            invariant
                n == all.len(),
                lines.deep_view() == all,
                all == text_lines(content@),
                forall|s: &str| #[trigger] parse_f32.requires((s,)),
                decs.len() == i,
                decoded_lines(all, decs, *parse_f32),
                runs_agree(all, decs, all.skip(i as int), custom_state(rules@, current, variables@)),
        {
            let ghost st = custom_state(rules@, current, variables@);
            let ghost rest = all.skip(i as int);
            let ghost decs0 = decs;
            proof {
                assert(runs_agree(all, decs0, rest, st));
                lemma_deep_view_chars(lines@[i as int]);
                assert(rest[0] == all[i as int]);
            }
            let l = trim_chars(lines[i].as_slice());
            let panics = line_would_panic(&l, current.is_some(), Ghost(st), Ghost(all[i as int]));
            if panics {
                proof {
                    assert forall|d: Seq<Option<u32>>|
                        (decs + d).len() == all.len() implies #[trigger] checked_outcome(
                        None::<Result<StyleSheet, ParseError>>,
                        custom_parse(content@, decs + d),
                    ) by {
                        assert(d.len() == rest.len());
                        assert(custom_run(all, decs + d, initial_custom()) == custom_run(rest, d, st));
                        assert(line_step(st, rest[0], d[0]) is Panic);
                    }
                }
                return None;
            }
            let text = line_decimal_text_of(l.as_slice());
            let dec = match &text {
                Some(t) => {
                    let ts = t.as_str();
                    let v = parse_f32(ts);
                    assert(call_ensures(*parse_f32, (ts,), v));
                    v
                },
                None => None,
            };
            assert(!(line_step(st, all[i as int], dec) is Panic));
            let out = self.apply_line(
                &l,
                Ghost(all[i as int]),
                dec,
                &mut rules,
                &mut current,
                &mut variables,
            );
            proof {
                let step = line_step(st, all[i as int], dec);
                assert(decoded_lines(all, decs.push(dec), *parse_f32)) by {
                    assert forall|t: int| 0 <= t < decs.len() + 1 implies match line_decimal_text(
                        trim(#[trigger] all[t]),
                    ) {
                        Some(x) => exists|a: &str| a@ == x && call_ensures(*parse_f32, (a,), decs.push(dec)[t]),
                        None => decs.push(dec)[t] is None,
                    } by {
                        if t < decs.len() {
                            assert(decs.push(dec)[t] == decs[t]);
                        }
                    }
                }
            }
            match out {
                Err(e) => {
                    proof {
                        assert forall|d: Seq<Option<u32>>|
                            (decs.push(dec) + d).len() == all.len() implies #[trigger] checked_outcome(
                            Some(Err::<StyleSheet, ParseError>(e)),
                            custom_parse(content@, decs.push(dec) + d),
                        ) by {
                            let d2 = seq![dec] + d;
                            assert(decs.push(dec) + d =~= decs + d2);
                            assert(d2[0] == dec);
                            assert(d2.drop_first() =~= d);
                            assert(custom_run(all, decs + d2, initial_custom()) == custom_run(rest, d2, st));
                        }
                        decs = decs.push(dec);
                    }
                    return Some(Err(e));
                },
                Ok(()) => {},
            }
            proof {
                assert(l@ == trim(all[i as int]));
                assert(rule_views(rules@) =~= custom_state(rules@, current, variables@).rules);
                assert(line_step(st, all[i as int], dec) == LineStep::Go(
                    custom_state(rules@, current, variables@),
                ));
                let old_decs = decs;
                decs = decs.push(dec);
                assert forall|d: Seq<Option<u32>>|
                    d.len() == n - (i + 1) implies custom_run(all, decs + d, initial_custom())
                    == #[trigger] custom_run(
                    all.skip(i + 1),
                    d,
                    custom_state(rules@, current, variables@),
                ) by {
                    let d2 = seq![dec] + d;
                    assert(decs + d =~= old_decs + d2);
                    assert(d2[0] == dec);
                    assert(d2.drop_first() =~= d);
                    assert(rest.drop_first() =~= all.skip(i + 1));
                    assert(d2.len() == n - i);
                    assert(old_decs == decs0);
                    assert(custom_run(all, old_decs + d2, initial_custom()) == custom_run(rest, d2, st));
                    assert(custom_run(rest, d2, st) == custom_run(
                        rest.drop_first(),
                        d2.drop_first(),
                        custom_state(rules@, current, variables@),
                    ));
                }
            }
        }
        let ghost st_end = custom_state(rules@, current, variables@);
        match current {
            Some(c) => {
                let ghost r0 = rules@;
                rules.push(c);
                proof {
                    assert(rule_views(rules@) =~= rule_views(r0).push(c@));
                }
            },
            None => {},
        }
        let sheet = StyleSheet { rules, variables };
        proof {
            assert(sheet@ == finish(st_end));
            assert(all.skip(n as int) =~= Seq::<Seq<char>>::empty());
            assert(custom_run(all, decs, initial_custom()) == CustomOutcome::Done(finish(st_end))) by {
                assert(decs + Seq::<Option<u32>>::empty() =~= decs);
                assert(custom_run(all.skip(n as int), Seq::<Option<u32>>::empty(), st_end) == CustomOutcome::Done(finish(st_end)));
            }
            assert forall|d: Seq<Option<u32>>|
                (decs + d).len() == all.len() implies #[trigger] checked_outcome(
                Some(Ok::<StyleSheet, ParseError>(sheet)),
                custom_parse(content@, decs + d),
            ) by {
                assert(d.len() == 0);
                assert(decs + d =~= decs);
            }
        }
        Some(Ok(sheet))
    }

    /// Parses the custom (Maperitive-style) format: `features` lines start
    /// rules, `define` lines define variables, other lines set properties of
    /// the current rule; empty lines and comments are skipped. Decimal texts
    /// decode through `parse_f32` (the caller's `str::parse::<f32>`).
    #[verifier::rlimit(60)]
    #[verifier::spinoff_prover]
    pub fn parse_custom_format<F: Fn(&str) -> Option<u32>>(&self, content: &str, parse_f32: &F) -> (r:
        Result<StyleSheet, ParseError>)
        requires
            custom_slices_ok(content@),
            forall|s: &str| #[trigger] parse_f32.requires((s,)),
        ensures
            exists|decs: Seq<Option<u32>>|
                #![trigger decoded_lines(text_lines(content@), decs, *parse_f32)]
                decoded_lines(text_lines(content@), decs, *parse_f32) && forall|d: Seq<Option<u32>>|
                    (decs + d).len() == text_lines(content@).len() ==> #[trigger] sheet_outcome(
                        r,
                        custom_parse(content@, decs + d),
                    ),
    {
        let r = self.run_custom_format(content, parse_f32);
        match r {
            Some(x) => {
                proof {
                    let decs = choose|decs: Seq<Option<u32>>|
                        #![trigger decoded_lines(text_lines(content@), decs, *parse_f32)]
                        decoded_lines(text_lines(content@), decs, *parse_f32) && forall|d: Seq<Option<u32>>|
                            (decs + d).len() == text_lines(content@).len() ==> #[trigger] checked_outcome(
                                r,
                                custom_parse(content@, decs + d),
                            );
                    assert forall|d: Seq<Option<u32>>|
                        (decs + d).len() == text_lines(content@).len() implies #[trigger] sheet_outcome(
                        x,
                        custom_parse(content@, decs + d),
                    ) by {
                        assert(checked_outcome(r, custom_parse(content@, decs + d)));
                    }
                    assert(decoded_lines(text_lines(content@), decs, *parse_f32));
                }
                x
            },
            None => {
                proof {
                    let decs = choose|decs: Seq<Option<u32>>|
                        #![trigger decoded_lines(text_lines(content@), decs, *parse_f32)]
                        decoded_lines(text_lines(content@), decs, *parse_f32) && forall|d: Seq<Option<u32>>|
                            (decs + d).len() == text_lines(content@).len() ==> #[trigger] checked_outcome(
                                r,
                                custom_parse(content@, decs + d),
                            );
                    let d = Seq::<Option<u32>>::new(
                        (text_lines(content@).len() - decs.len()) as nat,
                        |t: int| None::<u32>,
                    );
                    assert((decs + d).len() == text_lines(content@).len());
                    assert(checked_outcome(r, custom_parse(content@, decs + d)));
                    assert(!(custom_parse(content@, decs + d) is Panic));
                }
                Err(ParseError::Utf8)
            },
        }
    }

    /// Parses a stylesheet as `parse_string` does, without its requirement:
    /// `None` where the custom format would slice a color text badly (given
    /// what `parse_f32` returned for the lines read), where `parse_string`
    /// would panic.
    pub fn parse_string_checked<F: Fn(&str) -> Option<u32>>(
        &self,
        content: &str,
        yaml: Option<StyleSheet>,
        parse_f32: &F,
    ) -> (r: Option<Result<StyleSheet, ParseError>>)
        requires
            forall|s: &str| #[trigger] parse_f32.requires((s,)),
        ensures
            yaml is Some ==> r == Some(Ok::<StyleSheet, ParseError>(yaml->0)),
            yaml is None ==> exists|decs: Seq<Option<u32>>|
                #![trigger decoded_lines(text_lines(content@), decs, *parse_f32)]
                decoded_lines(text_lines(content@), decs, *parse_f32) && forall|d: Seq<Option<u32>>|
                    (decs + d).len() == text_lines(content@).len() ==> #[trigger] checked_outcome(
                        r,
                        custom_parse(content@, decs + d),
                    ),
    {
        match yaml {
            Some(sheet) => Some(Ok(sheet)),
            None => self.run_custom_format(content, parse_f32),
        }
    }

    /// Parses a stylesheet: the YAML reading of `content` when it gave one
    /// (`yaml`, read by the caller with `serde_yaml`), else the custom format.
    pub fn parse_string<F: Fn(&str) -> Option<u32>>(
        &self,
        content: &str,
        yaml: Option<StyleSheet>,
        parse_f32: &F,
    ) -> (r: Result<StyleSheet, ParseError>)
        requires
            yaml is None ==> custom_slices_ok(content@),
            forall|s: &str| #[trigger] parse_f32.requires((s,)),
        ensures
            yaml is Some ==> r is Ok && r->Ok_0 == yaml->0,
            yaml is None ==> exists|decs: Seq<Option<u32>>|
                #![trigger decoded_lines(text_lines(content@), decs, *parse_f32)]
                decoded_lines(text_lines(content@), decs, *parse_f32) && forall|d: Seq<Option<u32>>|
                    (decs + d).len() == text_lines(content@).len() ==> #[trigger] sheet_outcome(
                        r,
                        custom_parse(content@, decs + d),
                    ),
    {
        match yaml {
            Some(sheet) => Ok(sheet),
            None => self.parse_custom_format(content, parse_f32),
        }
    }
}

// ---------------------------------------------------------------------------
// Laws
// ---------------------------------------------------------------------------

/// An uppercase hexadecimal digit reads back as its value, and is ASCII and
/// neither whitespace nor a sign.
proof fn lemma_hex_digit(d: nat)
    requires
        d < 16,
    ensures
        digit_value(hex_digit(d), 16) == Some(d),
        (hex_digit(d) as u32) < 0x80,
        !is_ws(hex_digit(d)),
        hex_digit(d) != '+' && hex_digit(d) != '-',
{
    if d == 0 { assert(hex_digit(d) == '0'); }
    else if d == 1 { assert(hex_digit(d) == '1'); }
    else if d == 2 { assert(hex_digit(d) == '2'); }
    else if d == 3 { assert(hex_digit(d) == '3'); }
    else if d == 4 { assert(hex_digit(d) == '4'); }
    else if d == 5 { assert(hex_digit(d) == '5'); }
    else if d == 6 { assert(hex_digit(d) == '6'); }
    else if d == 7 { assert(hex_digit(d) == '7'); }
    else if d == 8 { assert(hex_digit(d) == '8'); }
    else if d == 9 { assert(hex_digit(d) == '9'); }
    else if d == 10 { assert(hex_digit(d) == 'A'); }
    else if d == 11 { assert(hex_digit(d) == 'B'); }
    else if d == 12 { assert(hex_digit(d) == 'C'); }
    else if d == 13 { assert(hex_digit(d) == 'D'); }
    else if d == 14 { assert(hex_digit(d) == 'E'); }
    else { assert(hex_digit(d) == 'F'); }
}

/// Two uppercase hexadecimal digits read back as the byte they write.
proof fn lemma_hex2(b: u8)
    ensures
        parse_u8_spec(hex2(b), 16) == Some(b),
        hex2(b).len() == 2,
        forall|i: int| 0 <= i < 2 ==> ((#[trigger] hex2(b)[i]) as u32) < 0x80 && !is_ws(hex2(b)[i]),
{
    let h = hex2(b);
    lemma_hex_digit((b / 16) as nat);
    lemma_hex_digit((b % 16) as nat);
    assert(h.drop_last() =~= seq![h[0]]);
    assert(h.drop_last().drop_last() =~= Seq::<char>::empty());
    let hi = (b / 16) as nat;
    let lo = (b % 16) as nat;
    assert(h.drop_last().last() == hex_digit(hi));
    assert(h.last() == hex_digit(lo));
    assert(digits_value(h.drop_last().drop_last(), 16) == Some(0nat));
    assert(digits_value(h.drop_last(), 16) == Some(0 * 16 + hi));
    assert(digits_value(h, 16) == Some(hi * 16 + lo));
    assert(hi * 16 + lo == b);
}

/// A text of ASCII characters takes one byte per character.
proof fn lemma_ascii_len(s: Seq<char>)
    requires
        forall|i: int| 0 <= i < s.len() ==> ((#[trigger] s[i]) as u32) < 0x80,
    ensures
        utf8_len(s) == s.len(),
    decreases s.len(),
{
    if s.len() > 0 {
        lemma_ascii_len(s.drop_last());
    }
}

/// A color's `#RRGGBBAA` text parses back to the color; its slicing is safe.
pub proof fn law_hex_text_parses_back(c: Color, alpha: Option<u32>)
    ensures
        color_slices_ok(hex_text(c)),
        color_of(hex_text(c), alpha) == Ok::<Color, ParseErrorView>(c),
{
    let s = hex_text(c);
    lemma_hex2(c.r);
    lemma_hex2(c.g);
    lemma_hex2(c.b);
    lemma_hex2(c.a);
    let hex = s.drop_first();
    assert(hex =~= hex2(c.r) + hex2(c.g) + hex2(c.b) + hex2(c.a));
    assert(forall|i: int| 0 <= i < hex.len() ==> ((#[trigger] hex[i]) as u32) < 0x80 && !is_ws(hex[i])) by {
        assert forall|i: int| 0 <= i < hex.len() implies ((#[trigger] hex[i]) as u32) < 0x80 && !is_ws(hex[i]) by {
            if i < 2 {
                assert(hex[i] == hex2(c.r)[i]);
            } else if i < 4 {
                assert(hex[i] == hex2(c.g)[i - 2]);
            } else if i < 6 {
                assert(hex[i] == hex2(c.b)[i - 4]);
            } else {
                assert(hex[i] == hex2(c.a)[i - 6]);
            }
        }
    }
    assert(trim_start(s) == s);
    assert(s.last() == hex[7]);
    assert(trim_end(s) == s);
    assert(trim(s) == s);
    lemma_ascii_len(hex);
    assert forall|j: nat| 0 <= j <= 8 implies #[trigger] char_index_of_byte(hex, j) == Some(j) by {
        assert forall|i: int| 0 <= i < hex.take(j as int).len() implies ((#[trigger] hex.take(j as int)[i]) as u32) < 0x80 by {
            assert(hex.take(j as int)[i] == hex[i]);
        }
        lemma_ascii_len(hex.take(j as int));
        lemma_index_prefix(hex, j as int, j);
    }
    assert(char_index_of_byte(hex, 2) == Some(2nat));
    assert(char_index_of_byte(hex, 4) == Some(4nat));
    assert(char_index_of_byte(hex, 6) == Some(6nat));
    assert(char_index_of_byte(hex, 0) == Some(0nat));
    assert(char_index_of_byte(hex, 8) == Some(8nat));
    assert(hex_slices_ok(hex, 4)) by {
        assert forall|i: nat| 1 <= i < 4 implies (#[trigger] char_index_of_byte(hex, 2 * i)) is Some by {
            assert(char_index_of_byte(hex, 2 * i) == Some(2 * i));
        }
    }
    assert(hex_piece(hex, 0) =~= hex2(c.r));
    assert(hex_piece(hex, 1) =~= hex2(c.g));
    assert(hex_piece(hex, 2) =~= hex2(c.b));
    assert(hex_piece(hex, 3) =~= hex2(c.a));
}

/// A color written as a name (neither `#...` nor `rgb(...)`/`rgba(...)`) is
/// read by its lowercase form: red, green and blue are the pure primaries,
/// white and black are opaque white and black, transparent is black with no
/// opacity, and any other name is an unknown color.
pub proof fn law_named_colors(color_str: Seq<char>, alpha: Option<u32>)
    requires
        !(trim(color_str).len() > 0 && trim(color_str)[0] == '#'),
        !has_prefix(trim(color_str), "rgb("@),
        !has_prefix(trim(color_str), "rgba("@),
    ensures
        lowercase(trim(color_str)) == "red"@ ==> color_of(color_str, alpha) == Ok::<Color, ParseErrorView>(
            Color { r: 255, g: 0, b: 0, a: 255 },
        ),
        lowercase(trim(color_str)) == "green"@ ==> color_of(color_str, alpha) == Ok::<
            Color,
            ParseErrorView,
        >(Color { r: 0, g: 255, b: 0, a: 255 }),
        lowercase(trim(color_str)) == "blue"@ ==> color_of(color_str, alpha) == Ok::<Color, ParseErrorView>(
            Color { r: 0, g: 0, b: 255, a: 255 },
        ),
        lowercase(trim(color_str)) == "white"@ ==> color_of(color_str, alpha) == Ok::<
            Color,
            ParseErrorView,
        >(Color { r: 255, g: 255, b: 255, a: 255 }),
        lowercase(trim(color_str)) == "black"@ ==> color_of(color_str, alpha) == Ok::<
            Color,
            ParseErrorView,
        >(Color { r: 0, g: 0, b: 0, a: 255 }),
        lowercase(trim(color_str)) == "transparent"@ ==> color_of(color_str, alpha) == Ok::<
            Color,
            ParseErrorView,
        >(Color { r: 0, g: 0, b: 0, a: 0 }),
        !(lowercase(trim(color_str)) == "red"@ || lowercase(trim(color_str)) == "green"@ || lowercase(
            trim(color_str),
        ) == "blue"@ || lowercase(trim(color_str)) == "white"@ || lowercase(trim(color_str))
            == "black"@ || lowercase(trim(color_str)) == "transparent"@) ==> color_of(color_str, alpha)
            == Err::<Color, ParseErrorView>(ParseErrorView::InvalidFormat("Unknown color: "@ + trim(color_str))),
{
    let l = lowercase(trim(color_str));
    reveal_strlit("red");
    reveal_strlit("green");
    reveal_strlit("blue");
    reveal_strlit("white");
    reveal_strlit("black");
    reveal_strlit("transparent");
    assert("red"@.len() == 3 && "red"@[0] == 'r');
    assert("green"@.len() == 5 && "green"@[0] == 'g');
    assert("blue"@.len() == 4 && "blue"@[0] == 'b');
    assert("white"@.len() == 5 && "white"@[0] == 'w');
    assert("black"@.len() == 5 && "black"@[0] == 'b');
    assert("transparent"@.len() == 11 && "transparent"@[0] == 't');
    if l == "red"@ {
        assert(l.len() == 3 && l[0] == 'r');
    } else if l == "green"@ {
        assert(l.len() == 5 && l[0] == 'g');
    } else if l == "blue"@ {
        assert(l.len() == 4 && l[0] == 'b');
    } else if l == "white"@ {
        assert(l.len() == 5 && l[0] == 'w');
    } else if l == "black"@ {
        assert(l.len() == 5 && l[0] == 'b');
    } else if l == "transparent"@ {
        assert(l.len() == 11 && l[0] == 't');
    }
    assert(rgb_parts(trim(color_str)) is None);
    assert(hex_color(trim(color_str)) is None);
}

} // verus!
